//! Plain PCI values: addresses, measured functions and BAR0 apertures.

use vstd::prelude::*;

verus! {

pub const SLOTS_PER_BUS: u8 = 32;

pub const FUNCTIONS_PER_SLOT: u8 = 8;

/// A bus, slot and function on the legacy PCI segment.
#[derive(Clone, Copy, Debug, PartialEq, Eq, Structural)]
pub struct PciAddress {
    pub bus: u8,
    pub slot: u8,
    pub function: u8,
}

impl PciAddress {
    /// An address exists only for a slot and function that a bus can hold.
    #[verifier::allow_in_spec]
    pub fn new(bus: u8, slot: u8, function: u8) -> Option<PciAddress>
        returns
            (if slot < SLOTS_PER_BUS && function < FUNCTIONS_PER_SLOT {
                Some(PciAddress { bus, slot, function })
            } else {
                None::<PciAddress>
            }),
    {
        if slot < SLOTS_PER_BUS && function < FUNCTIONS_PER_SLOT {
            Some(PciAddress { bus, slot, function })
        } else {
            None
        }
    }
}

/// The configuration header of one PCI function as it was read.
#[derive(Clone, Copy, Debug, PartialEq, Eq)]
pub struct PciDevice {
    pub address: PciAddress,
    pub vendor_id: u16,
    pub device_id: u16,
    pub class_code: u8,
    pub subclass: u8,
    pub programming_interface: u8,
    pub revision: u8,
    pub header_type: u8,
    pub interrupt_line: u8,
    pub interrupt_pin: u8,
    pub command: u16,
    pub bar_count: u8,
    pub raw_bars: [u32; 6],
}

/// The functions that a bus scan found, and whether it had to drop any.
pub struct PciInventory {
    pub devices: Vec<PciDevice>,
    pub overflowed: bool,
}

impl PciInventory {
    pub fn devices(&self) -> (devices: &[PciDevice])
        ensures
            devices@ == self.devices@,
    {
        self.devices.as_slice()
    }

    #[verifier::allow_in_spec]
    pub fn overflowed(&self) -> bool
        returns
            self.overflowed,
    {
        self.overflowed
    }
}

#[derive(Clone, Copy, Debug, PartialEq, Eq, Structural)]
pub enum BarApertureBoundsError {
    EmptyRange,
    OutsideAperture,
    AddressOverflow,
}

/// A stretch of physical memory that lies inside a leased aperture.
#[derive(Clone, Copy, Debug, PartialEq, Eq, Structural)]
pub struct Bar0ApertureRange {
    pub physical_address: u64,
    pub length: usize,
}

impl Bar0ApertureRange {
    #[verifier::allow_in_spec]
    pub fn physical_address(&self) -> u64
        returns
            self.physical_address,
    {
        self.physical_address
    }

    #[verifier::allow_in_spec]
    pub fn length(&self) -> usize
        returns
            self.length,
    {
        self.length
    }
}

/// The measured BAR0 aperture of one function, held by whoever may touch it.
#[derive(Debug, PartialEq, Eq)]
pub struct Bar0ApertureLease {
    pub address: PciAddress,
    pub physical_base: u64,
    pub length: u64,
}

impl Bar0ApertureLease {
    #[verifier::allow_in_spec]
    pub fn address(&self) -> PciAddress
        returns
            self.address,
    {
        self.address
    }

    #[verifier::allow_in_spec]
    pub fn physical_base(&self) -> u64
        returns
            self.physical_base,
    {
        self.physical_base
    }

    #[verifier::allow_in_spec]
    pub fn length(&self) -> u64
        returns
            self.length,
    {
        self.length
    }

    /// A range is handed out only where all of it lies inside the aperture.
    #[verifier::allow_in_spec]
    pub fn checked_range(&self, offset: u64, length: usize) -> Result<
        Bar0ApertureRange,
        BarApertureBoundsError,
    >
        returns
            (if length == 0 {
                Err(BarApertureBoundsError::EmptyRange)
            } else if offset + length > self.length {
                Err(BarApertureBoundsError::OutsideAperture)
            } else if self.physical_base + offset > u64::MAX {
                Err(BarApertureBoundsError::AddressOverflow)
            } else {
                Ok::<Bar0ApertureRange, BarApertureBoundsError>(
                    Bar0ApertureRange {
                        physical_address: (self.physical_base + offset) as u64,
                        length,
                    },
                )
            }),
    {
        if length == 0 {
            return Err(BarApertureBoundsError::EmptyRange);
        }
        if offset > self.length || length as u64 > self.length - offset {
            return Err(BarApertureBoundsError::OutsideAperture);
        }
        match self.physical_base.checked_add(offset) {
            None => Err(BarApertureBoundsError::AddressOverflow),
            Some(physical_address) => Ok(Bar0ApertureRange { physical_address, length }),
        }
    }
}

/// A range that an aperture hands out lies inside it.
pub proof fn law_a_leased_range_stays_inside(
    aperture: Bar0ApertureLease,
    offset: u64,
    length: usize,
    range: Bar0ApertureRange,
)
    requires
        aperture.checked_range(offset, length) == Ok::<_, BarApertureBoundsError>(range),
    ensures
        aperture.physical_base <= range.physical_address,
        0 < range.length,
        range.physical_address + range.length <= aperture.physical_base + aperture.length,
{
}

} // verus!
