//! Memory-mapped configuration space, one window per bus range.

use super::fingerprint::{
    ConfigurationEvent, FingerprintError, PciConfigReader, PciFunctionAddress,
};
use super::inventory::fingerprint_error_is_absence;
use vstd::prelude::*;

verus! {

pub const MAXIMUM_ECAM_WINDOWS: usize = 32;

pub const PCIE_CONFIGURATION_BYTES: u16 = 4096;

#[derive(Clone, Copy, Debug, PartialEq, Eq, Structural)]
pub struct EcamWindow {
    pub segment: u16,
    pub bus_start: u8,
    pub bus_end: u8,
    pub physical_base: u64,
}

#[derive(Clone, Copy, Debug, PartialEq, Eq, Structural)]
pub enum EcamError {
    ZeroCapacity,
    Capacity,
    InvalidWindow,
    OverlappingWindow,
    AddressOutsideWindow,
    AddressOverflow,
    InvalidOffset,
    MappingFault,
}

impl EcamWindow {
    #[verifier::allow_in_spec]
    pub fn valid(self) -> bool
        returns
            self.physical_base != 0 && self.bus_start <= self.bus_end,
    {
        self.physical_base != 0 && self.bus_start <= self.bus_end
    }

    #[verifier::allow_in_spec]
    pub fn contains(self, address: PciFunctionAddress) -> bool
        returns
            ({
                &&& self.valid()
                &&& self.segment == address.segment
                &&& self.bus_start <= address.bus
                &&& address.bus <= self.bus_end
                &&& address.slot < 32
                &&& address.function < 8
            }),
    {
        self.valid() && self.segment == address.segment && address.bus >= self.bus_start
            && address.bus <= self.bus_end && address.slot < 32 && address.function < 8
    }

    /// Where a register sits behind the window's base: a mebibyte per bus, 32
    /// slots of eight 4 KiB functions.
    pub open spec fn displacement(self, address: PciFunctionAddress, offset: u16) -> int {
        (address.bus - self.bus_start) * 0x10_0000 + address.slot * 0x8000 + address.function
            * 0x1000 + offset
    }

    /// The physical address of a register, or why it has none.
    pub open spec fn location(self, address: PciFunctionAddress, offset: u16) -> Result<
        u64,
        EcamError,
    > {
        if !self.contains(address) {
            Err(EcamError::AddressOutsideWindow)
        } else if offset % 4 != 0 || offset >= PCIE_CONFIGURATION_BYTES {
            Err(EcamError::InvalidOffset)
        } else if self.physical_base + self.displacement(address, offset) > u64::MAX {
            Err(EcamError::AddressOverflow)
        } else {
            Ok((self.physical_base + self.displacement(address, offset)) as u64)
        }
    }

    pub fn physical_address(self, address: PciFunctionAddress, offset: u16) -> (result: Result<
        u64,
        EcamError,
    >)
        ensures
            result == self.location(address, offset),
    {
        if !self.contains(address) {
            return Err(EcamError::AddressOutsideWindow);
        }
        assert(offset & 3 == offset % 4) by {
            crate::bits::lemma_word16(offset);
        }
        if offset & 3 != 0 || offset >= PCIE_CONFIGURATION_BYTES {
            return Err(EcamError::InvalidOffset);
        }
        let bus_delta: u64 = (address.bus - self.bus_start) as u64;
        let slot: u64 = address.slot as u64;
        let function: u64 = address.function as u64;
        let register: u64 = offset as u64;
        let displacement: u64 = (bus_delta << 20) | (slot << 15) | (function << 12) | register;
        assert(displacement == bus_delta * 0x10_0000 + slot * 0x8000 + function * 0x1000
            + register) by (bit_vector)
            requires
                displacement == (bus_delta << 20) | (slot << 15) | (function << 12) | register,
                bus_delta < 256,
                slot < 32,
                function < 8,
                register < 4096,
        ;
        match self.physical_base.checked_add(displacement) {
            Some(physical) => Ok(physical),
            None => Err(EcamError::AddressOverflow),
        }
    }
}

/// One read of mapped configuration space.
pub struct EcamRead {
    pub physical_address: u64,
    pub reply: Result<u32, EcamError>,
}

/// Reads of mapped configuration space. Each adds one entry to the history.
pub trait EcamAccess {
    /// All that was read.
    open spec fn history(&self) -> Seq<EcamRead> {
        arbitrary()
    }

    fn read_u32(&mut self, physical_address: u64) -> (reply: Result<u32, EcamError>)
        ensures
            final(self).history() == old(self).history().push(
                EcamRead { physical_address, reply },
            ),
    ;
}

/// An access that is lent.
impl<A: EcamAccess> EcamAccess for &mut A {
    open spec fn history(&self) -> Seq<EcamRead> {
        (**self).history()
    }

    fn read_u32(&mut self, physical_address: u64) -> (reply: Result<u32, EcamError>) {
        (**self).read_u32(physical_address)
    }
}

#[verifier::allow_in_spec]
pub fn windows_overlap(left: EcamWindow, right: EcamWindow) -> bool
    returns
        left.segment == right.segment && left.bus_start <= right.bus_end && right.bus_start
            <= left.bus_end,
{
    left.segment == right.segment && left.bus_start <= right.bus_end && right.bus_start
        <= left.bus_end
}

/// Whether a window sorts before another: by segment, then by first bus.
#[verifier::allow_in_spec]
pub fn window_precedes(left: EcamWindow, right: EcamWindow) -> bool
    returns
        left.segment < right.segment || (left.segment == right.segment && left.bus_start
            < right.bus_start),
{
    left.segment < right.segment || (left.segment == right.segment && left.bus_start
        < right.bus_start)
}

/// Whether windows are valid, apart from each other and in order.
pub open spec fn windows_ordered(windows: Seq<EcamWindow>) -> bool {
    &&& forall|i: int| 0 <= i < windows.len() ==> (#[trigger] windows[i]).valid()
    &&& forall|i: int, j: int|
        0 <= i < j < windows.len() ==> window_precedes(#[trigger] windows[i], #[trigger] windows[j])
    &&& forall|i: int, j: int|
        0 <= i < j < windows.len() ==> !windows_overlap(
            #[trigger] windows[i],
            #[trigger] windows[j],
        )
}

/// How many windows sort before a window.
pub open spec fn window_place(windows: Seq<EcamWindow>, window: EcamWindow) -> int
    decreases windows.len(),
{
    if windows.len() == 0 {
        0
    } else if window_precedes(windows.last(), window) {
        windows.len() as int
    } else {
        window_place(windows.drop_last(), window)
    }
}

pub open spec fn overlaps_some(windows: Seq<EcamWindow>, window: EcamWindow) -> bool {
    exists|i: int| 0 <= i < windows.len() && windows_overlap(#[trigger] windows[i], window)
}

/// What a failed location means to a configuration reader.
pub open spec fn location_fault(error: EcamError, offset: u16) -> FingerprintError {
    if error == EcamError::InvalidOffset {
        if offset % 4 != 0 {
            FingerprintError::UnalignedConfigurationOffset
        } else {
            FingerprintError::UnsupportedConfigurationOffset
        }
    } else {
        FingerprintError::ConfigurationRead
    }
}

/// Windows that answer for their buses through one mapping.
pub struct EcamConfigurationReader<const N: usize, A: EcamAccess> {
    pub windows: Vec<EcamWindow>,
    pub access: A,
    pub asked: Ghost<Seq<ConfigurationEvent>>,
}

impl<const N: usize, A: EcamAccess> EcamConfigurationReader<N, A> {
    pub open spec fn view(&self) -> Seq<EcamWindow> {
        self.windows@
    }

    pub open spec fn wf(&self) -> bool {
        0 < N && self@.len() <= N && windows_ordered(self@)
    }

    pub fn new(access: A) -> (result: Result<Self, EcamError>)
        ensures
            match result {
                Ok(reader) => N > 0 && reader.wf() && reader@ == Seq::<EcamWindow>::empty()
                    && reader.access == access && reader.asked@
                    == Seq::<ConfigurationEvent>::empty(),
                Err(error) => N == 0 && error == EcamError::ZeroCapacity,
            },
    {
        if N == 0 {
            return Err(EcamError::ZeroCapacity);
        }
        Ok(EcamConfigurationReader { windows: Vec::new(), access, asked: Ghost(Seq::empty()) })
    }

    #[verifier::rlimit(40)]
    pub fn insert(&mut self, window: EcamWindow) -> (result: Result<(), EcamError>)
        requires
            old(self).wf(),
        ensures
            final(self).wf(),
            final(self).access == old(self).access,
            final(self).asked == old(self).asked,
            result == (if !window.valid() {
                Err(EcamError::InvalidWindow)
            } else if overlaps_some(old(self)@, window) {
                Err(EcamError::OverlappingWindow)
            } else if old(self)@.len() >= N {
                Err(EcamError::Capacity)
            } else {
                Ok::<(), EcamError>(())
            }),
            final(self)@ == (if result is Ok {
                old(self)@.insert(window_place(old(self)@, window), window)
            } else {
                old(self)@
            }),
    {
        if !window.valid() {
            return Err(EcamError::InvalidWindow);
        }
        let mut index: usize = 0;
        while index < self.windows.len()
            invariant
                index <= self@.len(),
                self@ == self.windows@,
                *self == *old(self),
                old(self).wf(),
                window.valid(),
                forall|i: int| 0 <= i < index ==> !windows_overlap(#[trigger] self@[i], window),
            decreases self@.len() - index,
        {
            if windows_overlap(self.windows[index], window) {
                assert(windows_overlap(self@[index as int], window));
                return Err(EcamError::OverlappingWindow);
            }
            index += 1;
        }
        if self.windows.len() >= N {
            return Err(EcamError::Capacity);
        }
        let mut place: usize = self.windows.len();
        assert(self@.take(place as int) =~= self@);
        while place > 0 && !window_precedes(self.windows[place - 1], window)
            invariant
                place <= self@.len(),
                self@ == self.windows@,
                *self == *old(self),
                old(self).wf(),
                window_place(self@, window) == window_place(self@.take(place as int), window),
                forall|i: int|
                    place <= i < self@.len() ==> !window_precedes(#[trigger] self@[i], window),
            decreases place,
        {
            proof {
                let shown = self@.take(place as int);
                assert(shown.drop_last() =~= self@.take(place - 1));
                assert(shown.last() == self@[place - 1]);
            }
            place -= 1;
        }
        proof {
            let shown = self@.take(place as int);
            if place > 0 {
                assert(shown.last() == self@[place - 1]);
            }
            assert(window_place(self@, window) == place);
        }
        self.windows.insert(place, window);
        proof {
            let grown = self@;
            let before = old(self)@;
            assert(grown =~= before.insert(place as int, window));
            assert forall|i: int, j: int| 0 <= i < j < grown.len() implies window_precedes(
                #[trigger] grown[i],
                #[trigger] grown[j],
            ) && !windows_overlap(grown[i], grown[j]) by {
                let a = if i < place {
                    i
                } else {
                    i - 1
                };
                let b = if j < place {
                    j
                } else {
                    j - 1
                };
                if i == place {
                    assert(grown[j] == before[b]);
                    assert(!window_precedes(before[b], window));
                    assert(!windows_overlap(before[b], window));
                } else if j == place {
                    assert(grown[i] == before[a]);
                    assert(!windows_overlap(before[a], window));
                    if a < place - 1 {
                        assert(window_precedes(before[a], before[place - 1]));
                    }
                    assert(window_precedes(before[place - 1], window));
                } else {
                    assert(grown[i] == before[a] && grown[j] == before[b]);
                }
            }
            assert forall|i: int| 0 <= i < grown.len() implies (#[trigger] grown[i]).valid() by {
                if i < place {
                    assert(grown[i] == before[i]);
                } else if i > place {
                    assert(grown[i] == before[i - 1]);
                }
            }
        }
        Ok(())
    }

    pub fn windows(&self) -> (windows: &[EcamWindow])
        ensures
            windows@ == self@,
    {
        self.windows.as_slice()
    }

    pub fn len(&self) -> (length: usize)
        ensures
            length == self@.len(),
    {
        self.windows.len()
    }

    pub fn is_empty(&self) -> (empty: bool)
        ensures
            empty == (self@.len() == 0),
    {
        self.windows.len() == 0
    }

    pub fn window_for(&self, address: PciFunctionAddress) -> (result: Result<
        EcamWindow,
        EcamError,
    >)
        ensures
            match result {
                Ok(window) => self@.contains(window) && window.contains(address),
                Err(error) => error == EcamError::AddressOutsideWindow && forall|i: int|
                    0 <= i < self@.len() ==> !(#[trigger] self@[i]).contains(address),
            },
    {
        let mut index: usize = 0;
        while index < self.windows.len()
            invariant
                index <= self@.len(),
                self@ == self.windows@,
                forall|i: int| 0 <= i < index ==> !(#[trigger] self@[i]).contains(address),
            decreases self@.len() - index,
        {
            if self.windows[index].contains(address) {
                return Ok(self.windows[index]);
            }
            index += 1;
        }
        Err(EcamError::AddressOutsideWindow)
    }

    /// What reading a register comes down to: the physical address to read, or
    /// the fault that no read can change.
    pub open spec fn selects(
        &self,
        address: PciFunctionAddress,
        offset: u16,
        selection: Result<u64, FingerprintError>,
    ) -> bool {
        if exists|i: int| 0 <= i < self@.len() && (#[trigger] self@[i]).contains(address) {
            exists|i: int|
                0 <= i < self@.len() && (#[trigger] self@[i]).contains(address) && selection == (
                match self@[i].location(address, offset) {
                    Ok(physical) => Ok::<u64, FingerprintError>(physical),
                    Err(error) => Err(location_fault(error, offset)),
                })
        } else {
            selection == Err::<u64, _>(FingerprintError::UnsupportedPciSegment)
        }
    }

    pub fn select(&self, address: PciFunctionAddress, offset: u16) -> (selection: Result<
        u64,
        FingerprintError,
    >)
        ensures
            self.selects(address, offset, selection),
    {
        let window = match self.window_for(address) {
            Ok(window) => window,
            Err(_) => {
                return Err(FingerprintError::UnsupportedPciSegment);
            },
        };
        proof {
            let i = choose|i: int| 0 <= i < self@.len() && self@[i] == window;
            assert(self@[i].contains(address));
        }
        assert(offset & 3 == offset % 4) by {
            crate::bits::lemma_word16(offset);
        }
        match window.physical_address(address, offset) {
            Ok(physical) => Ok(physical),
            Err(EcamError::InvalidOffset) => if offset & 3 != 0 {
                Err(FingerprintError::UnalignedConfigurationOffset)
            } else {
                Err(FingerprintError::UnsupportedConfigurationOffset)
            },
            Err(_) => Err(FingerprintError::ConfigurationRead),
        }
    }
}

/// What a mapped read means to a configuration reader.
#[verifier::allow_in_spec]
pub fn ecam_reply(reply: Result<u32, EcamError>) -> Result<u32, FingerprintError>
    returns
        (match reply {
            Ok(value) => Ok::<u32, FingerprintError>(value),
            Err(_) => Err(FingerprintError::ConfigurationRead),
        }),
{
    match reply {
        Ok(value) => Ok(value),
        Err(_) => Err(FingerprintError::ConfigurationRead),
    }
}

impl<const N: usize, A: EcamAccess> PciConfigReader for EcamConfigurationReader<N, A> {
    open spec fn history(&self) -> Seq<ConfigurationEvent> {
        self.asked@
    }

    fn maximum_offset(&mut self) -> (limit: u16)
        ensures
            limit == PCIE_CONFIGURATION_BYTES - 1,
            final(self).windows == old(self).windows,
            final(self).access == old(self).access,
    {
        let limit: u16 = PCIE_CONFIGURATION_BYTES - 1;
        proof {
            self.asked@ = self.asked@.push(ConfigurationEvent::Limit(limit));
        }
        limit
    }

    /// Reads the register where a window holds it; nothing else is read.
    fn read_u32(&mut self, address: PciFunctionAddress, offset: u16) -> (result: Result<
        u32,
        FingerprintError,
    >)
        ensures
            final(self).windows == old(self).windows,
            exists|selection: Result<u64, FingerprintError>| #[trigger]
                old(self).selects(address, offset, selection) && match selection {
                    Err(error) => result == Err::<u32, _>(error) && final(self).access == old(
                        self,
                    ).access,
                    Ok(physical_address) => {
                        let reply = final(self).access.history().last().reply;
                        &&& final(self).access.history() == old(self).access.history().push(
                            EcamRead { physical_address, reply },
                        )
                        &&& result == ecam_reply(reply)
                    },
                },
    {
        let selection = self.select(address, offset);
        let result = match selection {
            Ok(physical) => ecam_reply(self.access.read_u32(physical)),
            Err(error) => Err(error),
        };
        proof {
            self.asked@ = self.asked@.push(
                ConfigurationEvent::Word { address, offset, reply: result },
            );
            assert(old(self).selects(address, offset, selection));
        }
        result
    }
}

/// A reader that asks a second one where the first cannot reach.
pub struct CascadingConfigurationReader<Primary: PciConfigReader, Fallback: PciConfigReader> {
    pub primary: Primary,
    pub fallback: Fallback,
    pub asked: Ghost<Seq<ConfigurationEvent>>,
}

impl<Primary: PciConfigReader, Fallback: PciConfigReader> CascadingConfigurationReader<
    Primary,
    Fallback,
> {
    pub fn new(primary: Primary, fallback: Fallback) -> (reader: Self)
        ensures
            reader.primary == primary,
            reader.fallback == fallback,
            reader.asked@ == Seq::<ConfigurationEvent>::empty(),
    {
        CascadingConfigurationReader { primary, fallback, asked: Ghost(Seq::empty()) }
    }
}

impl<Primary: PciConfigReader, Fallback: PciConfigReader> PciConfigReader
    for CascadingConfigurationReader<Primary, Fallback> {
    open spec fn history(&self) -> Seq<ConfigurationEvent> {
        self.asked@
    }

    /// The larger limit of both, each asked once.
    fn maximum_offset(&mut self) -> (limit: u16)
        ensures
            exists|first: u16, second: u16|
                final(self).primary.history() == #[trigger] old(self).primary.history().push(
                    ConfigurationEvent::Limit(first),
                ) && final(self).fallback.history() == #[trigger] old(
                    self,
                ).fallback.history().push(ConfigurationEvent::Limit(second)) && limit == (if first >= second {
                    first
                } else {
                    second
                }),
    {
        let first: u16 = self.primary.maximum_offset();
        let second: u16 = self.fallback.maximum_offset();
        let limit: u16 = if first >= second {
            first
        } else {
            second
        };
        proof {
            self.asked@ = self.asked@.push(ConfigurationEvent::Limit(limit));
        }
        limit
    }

    /// What the first reader answers, asked once. Only where it cannot reach is the
    /// second asked, once, and answers in its place.
    fn read_u32(&mut self, address: PciFunctionAddress, offset: u16) -> (result: Result<
        u32,
        FingerprintError,
    >)
        ensures
            exists|reply: Result<u32, FingerprintError>|
                final(self).primary.history() == #[trigger] old(self).primary.history().push(
                    ConfigurationEvent::Word { address, offset, reply },
                ) && if reply matches Err(error) && super::inventory::reads_as_absent(error) {
                    final(self).fallback.history() == old(self).fallback.history().push(
                        ConfigurationEvent::Word { address, offset, reply: result },
                    )
                } else {
                    result == reply && final(self).fallback == old(self).fallback
                },
    {
        let reply = self.primary.read_u32(address, offset);
        let result = match reply {
            Ok(value) => Ok(value),
            Err(error) => if fingerprint_error_is_absence(error) {
                self.fallback.read_u32(address, offset)
            } else {
                Err(error)
            },
        };
        proof {
            let entry = ConfigurationEvent::Word { address, offset, reply };
            assert(self.primary.history() == old(self).primary.history().push(entry));
            self.asked@ = self.asked@.push(
                ConfigurationEvent::Word { address, offset, reply: result },
            );
        }
        result
    }
}

/// Every register of every function has a physical address of its own within
/// a window.
pub proof fn law_ecam_addresses_are_distinct(
    window: EcamWindow,
    first: PciFunctionAddress,
    second: PciFunctionAddress,
    first_offset: u16,
    second_offset: u16,
)
    requires
        window.location(first, first_offset) is Ok,
        window.location(first, first_offset) == window.location(second, second_offset),
    ensures
        first == second,
        first_offset == second_offset,
{
    let a = (first.bus - window.bus_start) * 32 + first.slot;
    let b = (second.bus - window.bus_start) * 32 + second.slot;
    assert(a * 0x8000 + first.function * 0x1000 + first_offset == b * 0x8000 + second.function
        * 0x1000 + second_offset);
    assert(a == b);
    assert(first.function == second.function);
}

/// At most one window of an ordered set answers for an address.
pub proof fn law_an_address_has_one_window(
    windows: Seq<EcamWindow>,
    address: PciFunctionAddress,
    i: int,
    j: int,
)
    requires
        windows_ordered(windows),
        0 <= i < windows.len(),
        0 <= j < windows.len(),
        windows[i].contains(address),
        windows[j].contains(address),
    ensures
        i == j,
{
    if i < j {
        assert(!windows_overlap(windows[i], windows[j]));
    } else if j < i {
        assert(!windows_overlap(windows[j], windows[i]));
    }
}

} // verus!
