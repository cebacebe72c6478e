//! Decoding of the Supported Protocol capabilities of an xHCI controller.
//!
//! Every read is derived from the leased BAR0 aperture before it reaches the
//! transport. The evidence tells which protocol covers which root port, and
//! nothing of attached devices.

use crate::pci::{Bar0ApertureLease, Bar0ApertureRange, BarApertureBoundsError};
use crate::seal::Sealer;
use vstd::prelude::*;

verus! {

pub const MAXIMUM_SUPPORTED_PROTOCOLS: usize = 16;

pub const MAXIMUM_EXTENDED_CAPABILITY_HOPS: usize = 64;

pub const EXTENDED_CAPABILITY_MINIMUM_OFFSET: u32 = 0x20;

pub const SUPPORTED_PROTOCOL_CAPABILITY_ID: u8 = 2;

pub const SUPPORTED_PROTOCOL_FIXED_BYTES: u32 = 16;

/// The bytes `USB `, first byte lowest.
pub const USB_PROTOCOL_NAME: u32 = 0x2042_5355;

pub const ROOT_DOMAIN: u64 = 0x5848_4349_5052_4f54;

pub const SPEED_ROOT_DOMAIN: u64 = 0x5350_4545_445f_4944;

/// A transport that reads one dword of a range inside the leased aperture.
pub trait CheckedSupportedProtocolRead {
    type Error;

    /// All that was read.
    open spec fn history(&self) -> Seq<DwordRead<Self::Error>> {
        arbitrary()
    }

    fn read_u32(&mut self, range: Bar0ApertureRange) -> (reply: Result<u32, Self::Error>)
        ensures
            final(self).history() == old(self).history().push(DwordRead { range, reply }),
    ;
}

/// A transport that is lent.
impl<R: CheckedSupportedProtocolRead> CheckedSupportedProtocolRead for &mut R {
    type Error = R::Error;

    open spec fn history(&self) -> Seq<DwordRead<R::Error>> {
        (**self).history()
    }

    fn read_u32(&mut self, range: Bar0ApertureRange) -> (reply: Result<u32, R::Error>) {
        (**self).read_u32(range)
    }
}

#[derive(Clone, Copy, Debug, PartialEq, Eq, Structural)]
pub enum UsbProtocolKind {
    Usb2,
    Usb3,
}

impl UsbProtocolKind {
    #[verifier::allow_in_spec]
    pub fn code(self) -> u64
        returns
            (match self {
                UsbProtocolKind::Usb2 => 2u64,
                UsbProtocolKind::Usb3 => 3u64,
            }),
    {
        match self {
            UsbProtocolKind::Usb2 => 2,
            UsbProtocolKind::Usb3 => 3,
        }
    }
}

#[derive(Clone, Copy, Debug, PartialEq, Eq, Structural)]
pub struct SupportedProtocol {
    pub capability_offset: u32,
    pub next_capability_offset: Option<u32>,
    pub kind: UsbProtocolKind,
    pub revision_bcd: u16,
    /// Root ports are numbered from one.
    pub first_port: u8,
    pub port_count: u8,
    pub protocol_defined: u16,
    pub protocol_speed_id_count: u8,
    pub protocol_slot_type: u8,
    pub speed_id_root: u64,
    pub capability_root: u64,
}

impl SupportedProtocol {
    /// Whether the protocol speaks for a port.
    pub open spec fn covers(self, port: int) -> bool {
        self.first_port <= port < self.first_port + self.port_count
    }
}

#[derive(Clone, Debug, PartialEq, Eq)]
pub struct SupportedProtocolEvidence {
    pub protocols: Vec<SupportedProtocol>,
    pub extended_capability_count: u8,
    pub initial_offset: u32,
    pub maximum_ports: u8,
    pub aperture_base: u64,
    pub aperture_bytes: u64,
    pub root: u64,
}

/// What the evidence says.
pub struct ProtocolFindings {
    pub protocols: Seq<SupportedProtocol>,
    pub extended_capability_count: u8,
    pub initial_offset: u32,
    pub maximum_ports: u8,
    pub aperture_base: u64,
    pub aperture_bytes: u64,
    pub root: u64,
}

impl View for SupportedProtocolEvidence {
    type V = ProtocolFindings;

    open spec fn view(&self) -> ProtocolFindings {
        ProtocolFindings {
            protocols: self.protocols@,
            extended_capability_count: self.extended_capability_count,
            initial_offset: self.initial_offset,
            maximum_ports: self.maximum_ports,
            aperture_base: self.aperture_base,
            aperture_bytes: self.aperture_bytes,
            root: self.root,
        }
    }
}

/// The protocols of one kind, in the order of discovery.
pub open spec fn of_kind(protocols: Seq<SupportedProtocol>, kind: UsbProtocolKind) -> Seq<
    SupportedProtocol,
> {
    protocols.filter(|protocol: SupportedProtocol| protocol.kind == kind)
}

impl SupportedProtocolEvidence {
    pub fn protocols(&self) -> (protocols: &[SupportedProtocol])
        ensures
            protocols@ == self.protocols@,
    {
        self.protocols.as_slice()
    }

    pub fn protocol_count(&self) -> (count: u8)
        ensures
            count == self.protocols@.len() as u8,
    {
        self.protocols.len() as u8
    }

    fn protocols_of(&self, kind: UsbProtocolKind) -> (chosen: Vec<SupportedProtocol>)
        ensures
            chosen@ == of_kind(self.protocols@, kind),
    {
        let mut chosen: Vec<SupportedProtocol> = Vec::new();
        let mut index: usize = 0;
        proof {
            reveal(Seq::filter);
        }
        while index < self.protocols.len()
            invariant
                index <= self.protocols@.len(),
                chosen@ == of_kind(self.protocols@.take(index as int), kind),
            decreases self.protocols@.len() - index,
        {
            proof {
                reveal(Seq::filter);
                assert(self.protocols@.take(index + 1).drop_last() =~= self.protocols@.take(
                    index as int,
                ));
            }
            if self.protocols[index].kind == kind {
                chosen.push(self.protocols[index]);
            }
            index = index + 1;
        }
        assert(self.protocols@.take(index as int) =~= self.protocols@);
        chosen
    }

    pub fn usb2_protocols(&self) -> (protocols: Vec<SupportedProtocol>)
        ensures
            protocols@ == of_kind(self.protocols@, UsbProtocolKind::Usb2),
    {
        self.protocols_of(UsbProtocolKind::Usb2)
    }

    pub fn usb3_protocols(&self) -> (protocols: Vec<SupportedProtocol>)
        ensures
            protocols@ == of_kind(self.protocols@, UsbProtocolKind::Usb3),
    {
        self.protocols_of(UsbProtocolKind::Usb3)
    }
}

#[derive(Debug, PartialEq, Eq)]
pub enum SupportedProtocolError<ReadError> {
    InvalidSecret,
    InvalidMaximumPorts,
    InvalidCapabilityOffset(u32),
    CapabilityOutsideAperture { offset: u32, bytes: u32, aperture_bytes: u64 },
    ApertureLease { offset: u32, source: BarApertureBoundsError },
    Read(ReadError),
    MissingSupportedProtocol,
    MissingPortOneCoverage,
    ExtendedCapabilityCapacity,
    SupportedProtocolCapacity,
    CapabilityCycle { from: u32, to: u32 },
    BodyOverlapsNextCapability { offset: u32, body_end: u32, next: u32 },
    InvalidProtocolName { offset: u32, name: u32 },
    InvalidBcdRevision { offset: u32, major: u8, minor: u8 },
    UnsupportedMajorRevision { offset: u32, major: u8 },
    UnsupportedMinorRevision { offset: u32, major: u8, minor: u8 },
    InvalidCompatiblePortRange {
        offset: u32,
        first_port: u8,
        port_count: u8,
        maximum_ports: u8,
    },
    DuplicateProtocolCoverage { offset: u32, prior_offset: u32 },
    OverlappingProtocolCoverage { offset: u32, prior_offset: u32, port: u8 },
    InvalidProtocolSpeedId { offset: u32, speed_id: u8 },
    DuplicateProtocolSpeedId { offset: u32, speed_id: u8 },
    ReservedProtocolSpeedType { offset: u32 },
    UnpairedAsymmetricProtocolSpeed { offset: u32, speed_id: u8 },
}

/// One exchange with the transport.
pub struct DwordRead<E> {
    pub range: Bar0ApertureRange,
    pub reply: Result<u32, E>,
}

/// The transport of a decoding. Its transcript is the history of the transport.
pub struct ProtocolTrace<R: CheckedSupportedProtocolRead> {
    pub reader: R,
}

/// What reading a register gives, by the transcript from a place on, and the
/// place after it.
pub open spec fn dword_run<E>(
    aperture: Bar0ApertureLease,
    offset: u32,
    log: Seq<DwordRead<E>>,
    at: int,
) -> Option<(Result<u32, SupportedProtocolError<E>>, int)> {
    match aperture.checked_range(offset as u64, 4) {
        Err(source) => Some((Err(SupportedProtocolError::ApertureLease { offset, source }), at)),
        Ok(range) => if 0 <= at < log.len() && log[at].range == range {
            Some(
                (
                    match log[at].reply {
                        Ok(word) => Ok(word),
                        Err(error) => Err(SupportedProtocolError::Read(error)),
                    },
                    at + 1,
                ),
            )
        } else {
            None
        },
    }
}

impl<R: CheckedSupportedProtocolRead> ProtocolTrace<R> {
    pub open spec fn log(&self) -> Seq<DwordRead<R::Error>> {
        self.reader.history()
    }

    pub fn new(reader: R) -> (trace: Self)
        ensures
            trace.reader == reader,
    {
        ProtocolTrace { reader }
    }

    /// Reads one register of the aperture.
    pub fn read_u32(&mut self, aperture: &Bar0ApertureLease, offset: u32) -> (result: Result<
        u32,
        SupportedProtocolError<R::Error>,
    >)
        ensures
            crate::trace::continues(final(self).log(), old(self).log()),
            forall|log: Seq<DwordRead<R::Error>>| #[trigger]
                crate::trace::continues(log, final(self).log()) ==> dword_run(
                    *aperture,
                    offset,
                    log,
                    old(self).log().len() as int,
                ) == Some((result, final(self).log().len() as int)),
    {
        let range = match aperture.checked_range(offset as u64, 4) {
            Err(source) => {
                return Err(SupportedProtocolError::ApertureLease { offset, source });
            },
            Ok(range) => range,
        };
        let ghost before = self.log();
        let reply = self.reader.read_u32(range);
        proof {
            assert(self.log()[before.len() as int] == DwordRead { range, reply });
        }
        match reply {
            Ok(word) => Ok(word),
            Err(error) => Err(SupportedProtocolError::Read(error)),
        }
    }
}

/// Every byte of a capability lies inside the aperture.
#[verifier::allow_in_spec]
pub fn ensure_range<E>(offset: u32, bytes: u32, aperture_bytes: u64) -> Result<
    (),
    SupportedProtocolError<E>,
>
    returns
        (if bytes == 0 || offset + bytes > aperture_bytes {
            Err(
                SupportedProtocolError::CapabilityOutsideAperture {
                    offset,
                    bytes,
                    aperture_bytes,
                },
            )
        } else {
            Ok::<(), SupportedProtocolError<E>>(())
        }),
{
    let end: u64 = offset as u64 + bytes as u64;
    if bytes == 0 || end > aperture_bytes {
        Err(
            SupportedProtocolError::CapabilityOutsideAperture { offset, bytes, aperture_bytes },
        )
    } else {
        Ok(())
    }
}

/// A capability starts past the fixed registers, on a dword.
#[verifier::allow_in_spec]
pub fn validate_capability_offset<E>(offset: u32, aperture_bytes: u64) -> Result<
    (),
    SupportedProtocolError<E>,
>
    returns
        (if offset < EXTENDED_CAPABILITY_MINIMUM_OFFSET || offset & 3 != 0 {
            Err(SupportedProtocolError::InvalidCapabilityOffset(offset))
        } else {
            ensure_range::<E>(offset, 4, aperture_bytes)
        }),
{
    if offset < EXTENDED_CAPABILITY_MINIMUM_OFFSET || offset & 3 != 0 {
        return Err(SupportedProtocolError::InvalidCapabilityOffset(offset));
    }
    ensure_range(offset, 4, aperture_bytes)
}

/// A register at a distance from a capability.
#[verifier::allow_in_spec]
pub fn checked_relative_offset<E>(offset: u32, relative: u32, aperture_bytes: u64) -> Result<
    u32,
    SupportedProtocolError<E>,
>
    returns
        (if offset + relative > u32::MAX {
            Err(
                SupportedProtocolError::CapabilityOutsideAperture {
                    offset,
                    bytes: if relative + 4 > u32::MAX {
                        u32::MAX
                    } else {
                        (relative + 4) as u32
                    },
                    aperture_bytes,
                },
            )
        } else {
            Ok::<u32, SupportedProtocolError<E>>((offset + relative) as u32)
        }),
{
    match offset.checked_add(relative) {
        None => Err(
            SupportedProtocolError::CapabilityOutsideAperture {
                offset,
                bytes: relative.saturating_add(4),
                aperture_bytes,
            },
        ),
        Some(register) => Ok(register),
    }
}

/// Where the chain goes on: never backwards, and never out of the aperture.
#[verifier::allow_in_spec]
pub fn relative_next<E>(current: u32, next_dwords: u8, aperture_bytes: u64) -> Result<
    Option<u32>,
    SupportedProtocolError<E>,
>
    returns
        (if next_dwords == 0 {
            Ok::<Option<u32>, SupportedProtocolError<E>>(None)
        } else if current + next_dwords * 4 > u32::MAX {
            Err(
                SupportedProtocolError::CapabilityCycle {
                    from: current,
                    to: current.wrapping_add((next_dwords * 4) as u32),
                },
            )
        } else {
            match validate_capability_offset::<E>(
                (current + next_dwords * 4) as u32,
                aperture_bytes,
            ) {
                Err(error) => Err(error),
                Ok(_) => Ok(Some((current + next_dwords * 4) as u32)),
            }
        }),
{
    if next_dwords == 0 {
        return Ok(None);
    }
    let displacement: u32 = next_dwords as u32 * 4;
    let next: u32 = current.wrapping_add(displacement);
    if next <= current {
        return Err(SupportedProtocolError::CapabilityCycle { from: current, to: next });
    }
    match validate_capability_offset(next, aperture_bytes) {
        Err(error) => Err(error),
        Ok(()) => Ok(Some(next)),
    }
}

#[verifier::allow_in_spec]
pub fn is_packed_bcd_byte(value: u8) -> bool
    returns
        (value & 0x0f <= 9 && value >> 4 <= 9),
{
    value & 0x0f <= 9 && value >> 4 <= 9
}

/// A root is never zero.
#[verifier::allow_in_spec]
pub fn canonical_root(root: u64) -> u64
    returns
        (if root == 0 {
            ROOT_DOMAIN
        } else {
            root
        }),
{
    if root == 0 {
        ROOT_DOMAIN
    } else {
        root
    }
}

/// The protocol that a name and a revision stand for.
#[verifier::allow_in_spec]
pub fn protocol_kind<E>(offset: u32, name: u32, major: u8, minor: u8) -> Result<
    UsbProtocolKind,
    SupportedProtocolError<E>,
>
    returns
        (if name != USB_PROTOCOL_NAME {
            Err(SupportedProtocolError::InvalidProtocolName { offset, name })
        } else if !is_packed_bcd_byte(major) || !is_packed_bcd_byte(minor) {
            Err(SupportedProtocolError::InvalidBcdRevision { offset, major, minor })
        } else if major != 0x02 && major != 0x03 {
            Err(SupportedProtocolError::UnsupportedMajorRevision { offset, major })
        } else if minor != 0 && (major == 0x02 || (minor != 0x10 && minor != 0x20)) {
            Err(SupportedProtocolError::UnsupportedMinorRevision { offset, major, minor })
        } else if major == 0x02 {
            Ok::<UsbProtocolKind, SupportedProtocolError<E>>(UsbProtocolKind::Usb2)
        } else {
            Ok(UsbProtocolKind::Usb3)
        }),
{
    if name != USB_PROTOCOL_NAME {
        return Err(SupportedProtocolError::InvalidProtocolName { offset, name });
    }
    if !is_packed_bcd_byte(major) || !is_packed_bcd_byte(minor) {
        return Err(SupportedProtocolError::InvalidBcdRevision { offset, major, minor });
    }
    let kind = match major {
        0x02 => UsbProtocolKind::Usb2,
        0x03 => UsbProtocolKind::Usb3,
        _ => {
            return Err(SupportedProtocolError::UnsupportedMajorRevision { offset, major });
        },
    };
    let supported_minor = match kind {
        UsbProtocolKind::Usb2 => minor == 0,
        UsbProtocolKind::Usb3 => minor == 0 || minor == 0x10 || minor == 0x20,
    };
    if !supported_minor {
        return Err(SupportedProtocolError::UnsupportedMinorRevision { offset, major, minor });
    }
    Ok(kind)
}

/// The ports of a protocol are not empty and end at the last port at most.
#[verifier::allow_in_spec]
pub fn validate_port_range<E>(
    offset: u32,
    first_port: u8,
    port_count: u8,
    maximum_ports: u8,
) -> Result<(), SupportedProtocolError<E>>
    returns
        (if first_port == 0 || port_count == 0 || first_port + port_count - 1 > maximum_ports {
            Err(
                SupportedProtocolError::InvalidCompatiblePortRange {
                    offset,
                    first_port,
                    port_count,
                    maximum_ports,
                },
            )
        } else {
            Ok::<(), SupportedProtocolError<E>>(())
        }),
{
    if first_port == 0 || port_count == 0 || first_port as u16 + port_count as u16 - 1
        > maximum_ports as u16 {
        return Err(
            SupportedProtocolError::InvalidCompatiblePortRange {
                offset,
                first_port,
                port_count,
                maximum_ports,
            },
        );
    }
    Ok(())
}

/// A body with its speeds lies inside the aperture and before the next
/// capability.
#[verifier::allow_in_spec]
pub fn validate_body<E>(
    offset: u32,
    speed_count: u8,
    next: Option<u32>,
    aperture_bytes: u64,
) -> Result<(), SupportedProtocolError<E>>
    returns
        ({
            let bytes = SUPPORTED_PROTOCOL_FIXED_BYTES + speed_count * 4;
            if offset + bytes > aperture_bytes || offset + bytes > u32::MAX {
                Err(
                    SupportedProtocolError::CapabilityOutsideAperture {
                        offset,
                        bytes: bytes as u32,
                        aperture_bytes,
                    },
                )
            } else {
                match next {
                    Some(next_offset) => if next_offset < offset + bytes {
                        Err(
                            SupportedProtocolError::BodyOverlapsNextCapability {
                                offset,
                                body_end: (offset + bytes) as u32,
                                next: next_offset,
                            },
                        )
                    } else {
                        Ok::<(), SupportedProtocolError<E>>(())
                    },
                    None => Ok(()),
                }
            }
        }),
{
    let bytes: u32 = SUPPORTED_PROTOCOL_FIXED_BYTES + speed_count as u32 * 4;
    match ensure_range(offset, bytes, aperture_bytes) {
        Err(error) => {
            return Err(error);
        },
        Ok(()) => {},
    }
    let body_end: u32 = match offset.checked_add(bytes) {
        None => {
            return Err(
                SupportedProtocolError::CapabilityOutsideAperture {
                    offset,
                    bytes,
                    aperture_bytes,
                },
            );
        },
        Some(end) => end,
    };
    match next {
        Some(next_offset) => if next_offset < body_end {
            Err(
                SupportedProtocolError::BodyOverlapsNextCapability {
                    offset,
                    body_end,
                    next: next_offset,
                },
            )
        } else {
            Ok(())
        },
        None => Ok(()),
    }
}

#[verifier::allow_in_spec]
pub fn speed_id_of(speed: u32) -> u8
    returns
        ((speed & 0x0f) as u8),
{
    (speed & 0x0f) as u8
}

#[verifier::allow_in_spec]
pub fn speed_type_of(speed: u32) -> u32
    returns
        ((speed >> 6) & 0x03),
{
    (speed >> 6) & 0x03
}

/// Whether a speed answers the one before it as its other direction.
#[verifier::allow_in_spec]
pub fn pairs_with(speed: u32, peer: u32) -> bool
    returns
        (speed_type_of(peer) == 3 && peer & !0xcf == speed & !0xcf),
{
    speed_type_of(peer) == 3 && peer & !0xcf == speed & !0xcf
}

/// Whether some speed already has an identifier.
pub open spec fn speed_id_taken(speeds: Seq<u32>, speed_id: u8) -> bool {
    exists|i: int| 0 <= i < speeds.len() && speed_id_of(#[trigger] speeds[i]) == speed_id
}

/// What a speed is refused for, after the speeds before it.
pub open spec fn speed_fault<E>(speeds: Seq<u32>, offset: u32, speed: u32) -> Option<
    SupportedProtocolError<E>,
> {
    let speed_id = speed_id_of(speed);
    if speed_id == 0 {
        Some(SupportedProtocolError::InvalidProtocolSpeedId { offset, speed_id })
    } else if speed_id_taken(speeds, speed_id) {
        Some(SupportedProtocolError::DuplicateProtocolSpeedId { offset, speed_id })
    } else if speed_type_of(speed) == 1 {
        Some(SupportedProtocolError::ReservedProtocolSpeedType { offset })
    } else {
        None
    }
}

fn check_speed<E>(speeds: &Vec<u32>, offset: u32, speed: u32) -> (fault: Option<
    SupportedProtocolError<E>,
>)
    ensures
        fault == speed_fault::<E>(speeds@, offset, speed),
{
    let speed_id: u8 = speed_id_of(speed);
    if speed_id == 0 {
        return Some(SupportedProtocolError::InvalidProtocolSpeedId { offset, speed_id });
    }
    let mut index: usize = 0;
    while index < speeds.len()
        invariant
            index <= speeds@.len(),
            speed_id != 0,
            speed_id == speed_id_of(speed),
            forall|i: int| 0 <= i < index ==> speed_id_of(#[trigger] speeds@[i]) != speed_id,
        decreases speeds@.len() - index,
    {
        if speed_id_of(speeds[index]) == speed_id {
            assert(speed_id_taken(speeds@, speed_id));
            return Some(SupportedProtocolError::DuplicateProtocolSpeedId { offset, speed_id });
        }
        index = index + 1;
    }
    if speed_type_of(speed) == 1 {
        return Some(SupportedProtocolError::ReservedProtocolSpeedType { offset });
    }
    None
}

/// Where the speed of a body with some number stands.
pub open spec fn speed_offset(offset: u32, index: int) -> u32 {
    (offset + SUPPORTED_PROTOCOL_FIXED_BYTES + index * 4) as u32
}

/// The speeds of a body, read on from those that were read already.
pub open spec fn speeds_run<E>(
    aperture: Bar0ApertureLease,
    offset: u32,
    count: u8,
    speeds: Seq<u32>,
    log: Seq<DwordRead<E>>,
    at: int,
) -> Option<(Result<Seq<u32>, SupportedProtocolError<E>>, int)>
    decreases count - speeds.len(),
{
    if speeds.len() >= count {
        Some((Ok(speeds), at))
    } else {
        let register = speed_offset(offset, speeds.len() as int);
        match dword_run(aperture, register, log, at) {
            None => None,
            Some((Err(error), after)) => Some((Err(error), after)),
            Some((Ok(speed), after)) => match speed_fault::<E>(speeds, register, speed) {
                Some(error) => Some((Err(error), after)),
                None => speeds_run(aperture, offset, count, speeds.push(speed), log, after),
            },
        }
    }
}

/// The first speed, from a place on, that lacks its other direction.
pub open spec fn unpaired_from(speeds: Seq<u32>, index: int) -> Option<int>
    decreases speeds.len() - index,
{
    if index < 0 || index >= speeds.len() {
        None
    } else if speed_type_of(speeds[index]) == 2 {
        if index + 1 < speeds.len() && pairs_with(speeds[index], speeds[index + 1]) {
            unpaired_from(speeds, index + 2)
        } else {
            Some(index)
        }
    } else if speed_type_of(speeds[index]) == 3 {
        Some(index)
    } else {
        unpaired_from(speeds, index + 1)
    }
}

fn find_unpaired(speeds: &Vec<u32>) -> (unpaired: Option<usize>)
    requires
        speeds@.len() <= 15,
    ensures
        unpaired_from(speeds@, 0) == (match unpaired {
            Some(index) => Some(index as int),
            None => None::<int>,
        }),
        unpaired matches Some(index) ==> index < speeds@.len(),
{
    let mut index: usize = 0;
    while index < speeds.len()
        invariant
            speeds@.len() <= 15,
            unpaired_from(speeds@, 0) == unpaired_from(speeds@, index as int),
        decreases speeds@.len() - index,
    {
        let speed: u32 = speeds[index];
        let speed_type: u32 = speed_type_of(speed);
        if speed_type == 2 {
            if index + 1 >= speeds.len() || !pairs_with(speed, speeds[index + 1]) {
                return Some(index);
            }
            index = index + 2;
        } else if speed_type == 3 {
            return Some(index);
        } else {
            index = index + 1;
        }
    }
    None
}

/// The words that a speed root seals.
pub open spec fn speed_words(offset: u32, speeds: Seq<u32>) -> Seq<u64>
    decreases speeds.len(),
{
    if speeds.len() == 0 {
        seq![offset as u64]
    } else {
        speed_words(offset, speeds.drop_last()).push(
            speed_offset(offset, speeds.len() - 1) as u64,
        ).push(speeds.last() as u64)
    }
}

pub open spec fn speed_root_of(secret: u64, offset: u32, speeds: Seq<u32>) -> u64 {
    canonical_root(
        crate::seal::seal_of(secret ^ SPEED_ROOT_DOMAIN, speed_words(offset, speeds)),
    )
}

fn speed_root(secret: u64, offset: u32, speeds: &Vec<u32>) -> (root: u64)
    requires
        offset + SUPPORTED_PROTOCOL_FIXED_BYTES + speeds@.len() * 4 <= u32::MAX,
    ensures
        root == speed_root_of(secret, offset, speeds@),
{
    let mut sealer = Sealer::new(secret ^ SPEED_ROOT_DOMAIN).word(offset as u64);
    assert(sealer.words() =~= speed_words(offset, speeds@.take(0)));
    let mut index: usize = 0;
    while index < speeds.len()
        invariant
            index <= speeds@.len(),
            offset + SUPPORTED_PROTOCOL_FIXED_BYTES + speeds@.len() * 4 <= u32::MAX,
            sealer.seed() == secret ^ SPEED_ROOT_DOMAIN,
            sealer.words() == speed_words(offset, speeds@.take(index as int)),
        decreases speeds@.len() - index,
    {
        let register: u32 = offset + SUPPORTED_PROTOCOL_FIXED_BYTES + index as u32 * 4;
        proof {
            assert(speeds@.take(index + 1).drop_last() =~= speeds@.take(index as int));
        }
        sealer = sealer.word(register as u64).word(speeds[index] as u64);
        index = index + 1;
    }
    assert(speeds@.take(index as int) =~= speeds@);
    canonical_root(sealer.root())
}

/// The number of speeds that a port word announces.
#[verifier::allow_in_spec]
pub fn speed_count_of(ports: u32) -> u8
    returns
        (((ports >> 28) & 0x0f) as u8),
{
    ((ports >> 28) & 0x0f) as u8
}

/// The words of a Supported Protocol capability.
#[derive(Clone, Copy, Debug, PartialEq, Eq, Structural)]
pub struct ProtocolBody {
    pub offset: u32,
    pub header: u32,
    pub next: Option<u32>,
    pub name: u32,
    pub ports: u32,
    pub slot: u32,
}

impl ProtocolBody {
    pub open spec fn words(self, kind: UsbProtocolKind, speed_id_root: u64) -> Seq<u64> {
        seq![
            self.offset as u64,
            self.header as u64,
            self.name as u64,
            self.ports as u64,
            self.slot as u64,
            kind.code(),
            speed_id_root,
        ]
    }

    /// The kind of a body whose fixed part is sound.
    #[verifier::allow_in_spec]
    pub fn validate<E>(self, maximum_ports: u8, aperture_bytes: u64) -> Result<
        UsbProtocolKind,
        SupportedProtocolError<E>,
    >
        returns
            (match protocol_kind::<E>(
                self.offset,
                self.name,
                (self.header >> 24) as u8,
                (self.header >> 16) as u8,
            ) {
                Err(error) => Err(error),
                Ok(kind) => match validate_port_range::<E>(
                    self.offset,
                    self.ports as u8,
                    (self.ports >> 8) as u8,
                    maximum_ports,
                ) {
                    Err(error) => Err(error),
                    Ok(_) => match validate_body::<E>(
                        self.offset,
                        speed_count_of(self.ports),
                        self.next,
                        aperture_bytes,
                    ) {
                        Err(error) => Err(error),
                        Ok(_) => Ok(kind),
                    },
                },
            }),
    {
        let kind = match protocol_kind(
            self.offset,
            self.name,
            (self.header >> 24) as u8,
            (self.header >> 16) as u8,
        ) {
            Err(error) => {
                return Err(error);
            },
            Ok(kind) => kind,
        };
        match validate_port_range(
            self.offset,
            self.ports as u8,
            (self.ports >> 8) as u8,
            maximum_ports,
        ) {
            Err(error) => {
                return Err(error);
            },
            Ok(()) => {},
        }
        match validate_body(self.offset, speed_count_of(self.ports), self.next, aperture_bytes) {
            Err(error) => {
                return Err(error);
            },
            Ok(()) => {},
        }
        Ok(kind)
    }

    /// The protocol that a sound body describes.
    pub open spec fn protocol(
        self,
        kind: UsbProtocolKind,
        speeds: Seq<u32>,
        secret: u64,
    ) -> SupportedProtocol {
        let speed_id_root = speed_root_of(secret, self.offset, speeds);
        SupportedProtocol {
            capability_offset: self.offset,
            next_capability_offset: self.next,
            kind,
            revision_bcd: ((((self.header >> 24) as u8) as u16) << 8u16) | (((self.header
                >> 16) as u8) as u16),
            first_port: self.ports as u8,
            port_count: (self.ports >> 8) as u8,
            protocol_defined: ((self.ports >> 16) & 0x0fff) as u16,
            protocol_speed_id_count: speed_count_of(self.ports),
            protocol_slot_type: (self.slot & 0x1f) as u8,
            speed_id_root,
            capability_root: canonical_root(
                crate::seal::seal_of(secret ^ ROOT_DOMAIN, self.words(kind, speed_id_root)),
            ),
        }
    }

    fn assemble(self, kind: UsbProtocolKind, speeds: &Vec<u32>, secret: u64) -> (protocol:
        SupportedProtocol)
        requires
            self.offset + SUPPORTED_PROTOCOL_FIXED_BYTES + speeds@.len() * 4 <= u32::MAX,
        ensures
            protocol == self.protocol(kind, speeds@, secret),
    {
        let speed_id_root: u64 = speed_root(secret, self.offset, speeds);
        let root: u64 = Sealer::new(secret ^ ROOT_DOMAIN).word(self.offset as u64).word(
            self.header as u64,
        ).word(self.name as u64).word(self.ports as u64).word(self.slot as u64).word(
            kind.code(),
        ).word(speed_id_root).root();
        SupportedProtocol {
            capability_offset: self.offset,
            next_capability_offset: self.next,
            kind,
            revision_bcd: ((((self.header >> 24) as u8) as u16) << 8u16) | (((self.header
                >> 16) as u8) as u16),
            first_port: self.ports as u8,
            port_count: (self.ports >> 8) as u8,
            protocol_defined: ((self.ports >> 16) & 0x0fff) as u16,
            protocol_speed_id_count: speed_count_of(self.ports),
            protocol_slot_type: (self.slot & 0x1f) as u8,
            speed_id_root,
            capability_root: canonical_root(root),
        }
    }
}

fn read_speeds<R: CheckedSupportedProtocolRead>(
    aperture: &Bar0ApertureLease,
    offset: u32,
    count: u8,
    trace: &mut ProtocolTrace<R>,
) -> (result: Result<Vec<u32>, SupportedProtocolError<R::Error>>)
    requires
        offset + SUPPORTED_PROTOCOL_FIXED_BYTES + count * 4 <= u32::MAX,
    ensures
        crate::trace::continues(final(trace).log(), old(trace).log()),
        forall|log: Seq<DwordRead<R::Error>>| #[trigger]
            crate::trace::continues(log, final(trace).log()) ==> speeds_run(
                *aperture,
                offset,
                count,
                Seq::<u32>::empty(),
                log,
                old(trace).log().len() as int,
            ) == Some(
                (
                    match result {
                        Ok(speeds) => Ok::<Seq<u32>, SupportedProtocolError<R::Error>>(speeds@),
                        Err(error) => Err(error),
                    },
                    final(trace).log().len() as int,
                ),
            ),
        result matches Ok(speeds) ==> speeds@.len() == count,
{
    let mut speeds: Vec<u32> = Vec::new();
    let mut index: u8 = 0;
    while index < count
        invariant
            index <= count,
            speeds@.len() == index,
            offset + SUPPORTED_PROTOCOL_FIXED_BYTES + count * 4 <= u32::MAX,
            crate::trace::continues(trace.log(), old(trace).log()),
            forall|log: Seq<DwordRead<R::Error>>| #[trigger]
                crate::trace::continues(log, trace.log()) ==> speeds_run(
                    *aperture,
                    offset,
                    count,
                    Seq::<u32>::empty(),
                    log,
                    old(trace).log().len() as int,
                ) == speeds_run(
                    *aperture,
                    offset,
                    count,
                    speeds@,
                    log,
                    trace.log().len() as int,
                ),
        decreases count - index,
    {
        let ghost head = trace.log();
        let register: u32 = offset + SUPPORTED_PROTOCOL_FIXED_BYTES + index as u32 * 4;
        let read = trace.read_u32(aperture, register);
        assert forall|log: Seq<DwordRead<R::Error>>| #[trigger]
            crate::trace::continues(log, trace.log()) implies crate::trace::continues(
            log,
            head,
        ) by {}
        let speed: u32 = match read {
            Err(error) => {
                return Err(error);
            },
            Ok(speed) => speed,
        };
        match check_speed::<R::Error>(&speeds, register, speed) {
            Some(error) => {
                return Err(error);
            },
            None => {},
        }
        speeds.push(speed);
        index = index + 1;
    }
    Ok(speeds)
}

/// The offsets of a body's name, port and slot words, once the body fits.
#[verifier::allow_in_spec]
pub fn body_offsets<E>(offset: u32, aperture_bytes: u64) -> Result<
    (u32, u32, u32),
    SupportedProtocolError<E>,
>
    returns
        (match ensure_range::<E>(offset, SUPPORTED_PROTOCOL_FIXED_BYTES, aperture_bytes) {
            Err(error) => Err(error),
            Ok(_) => match checked_relative_offset::<E>(offset, 4, aperture_bytes) {
                Err(error) => Err(error),
                Ok(name) => match checked_relative_offset::<E>(offset, 8, aperture_bytes) {
                    Err(error) => Err(error),
                    Ok(ports) => match checked_relative_offset::<E>(offset, 12, aperture_bytes) {
                        Err(error) => Err(error),
                        Ok(slot) => Ok((name, ports, slot)),
                    },
                },
            },
        }),
{
    match ensure_range(offset, SUPPORTED_PROTOCOL_FIXED_BYTES, aperture_bytes) {
        Err(error) => {
            return Err(error);
        },
        Ok(()) => {},
    }
    let name: u32 = match checked_relative_offset(offset, 4, aperture_bytes) {
        Err(error) => {
            return Err(error);
        },
        Ok(name) => name,
    };
    let ports: u32 = match checked_relative_offset(offset, 8, aperture_bytes) {
        Err(error) => {
            return Err(error);
        },
        Ok(ports) => ports,
    };
    match checked_relative_offset(offset, 12, aperture_bytes) {
        Err(error) => Err(error),
        Ok(slot) => Ok((name, ports, slot)),
    }
}

/// The fixed words of a body, by the transcript.
pub open spec fn body_run<E>(
    aperture: Bar0ApertureLease,
    offset: u32,
    header: u32,
    next: Option<u32>,
    log: Seq<DwordRead<E>>,
    at: int,
) -> Option<(Result<ProtocolBody, SupportedProtocolError<E>>, int)> {
    match body_offsets::<E>(offset, aperture.length) {
        Err(error) => Some((Err(error), at)),
        Ok(offsets) => match dword_run(aperture, offsets.0, log, at) {
            None => None,
            Some((Err(error), after)) => Some((Err(error), after)),
            Some((Ok(name), named)) => match dword_run(aperture, offsets.1, log, named) {
                None => None,
                Some((Err(error), after)) => Some((Err(error), after)),
                Some((Ok(ports), counted)) => match dword_run(aperture, offsets.2, log, counted) {
                    None => None,
                    Some((Err(error), after)) => Some((Err(error), after)),
                    Some((Ok(slot), after)) => Some(
                        (Ok(ProtocolBody { offset, header, next, name, ports, slot }), after),
                    ),
                },
            },
        },
    }
}

fn read_body<R: CheckedSupportedProtocolRead>(
    aperture: &Bar0ApertureLease,
    offset: u32,
    header: u32,
    next: Option<u32>,
    trace: &mut ProtocolTrace<R>,
) -> (result: Result<ProtocolBody, SupportedProtocolError<R::Error>>)
    ensures
        crate::trace::continues(final(trace).log(), old(trace).log()),
        forall|log: Seq<DwordRead<R::Error>>| #[trigger]
            crate::trace::continues(log, final(trace).log()) ==> body_run(
                *aperture,
                offset,
                header,
                next,
                log,
                old(trace).log().len() as int,
            ) == Some((result, final(trace).log().len() as int)),
        result matches Ok(body) ==> body.offset == offset && body.next == next,
{
    let (name_offset, ports_offset, slot_offset) = match body_offsets(offset, aperture.length) {
        Err(error) => {
            return Err(error);
        },
        Ok(offsets) => offsets,
    };
    let name: u32 = match trace.read_u32(aperture, name_offset) {
        Err(error) => {
            return Err(error);
        },
        Ok(name) => name,
    };
    let ghost named = trace.log();
    let ports_read = trace.read_u32(aperture, ports_offset);
    assert forall|log: Seq<DwordRead<R::Error>>| #[trigger]
        crate::trace::continues(log, trace.log()) implies crate::trace::continues(
        log,
        named,
    ) by {}
    let ports: u32 = match ports_read {
        Err(error) => {
            return Err(error);
        },
        Ok(ports) => ports,
    };
    let ghost counted = trace.log();
    let slot_read = trace.read_u32(aperture, slot_offset);
    assert forall|log: Seq<DwordRead<R::Error>>| #[trigger]
        crate::trace::continues(log, trace.log()) implies crate::trace::continues(
        log,
        counted,
    ) by {}
    match slot_read {
        Err(error) => Err(error),
        Ok(slot) => Ok(ProtocolBody { offset, header, next, name, ports, slot }),
    }
}

/// What reading a Supported Protocol capability gives, by the transcript.
pub open spec fn protocol_run<E>(
    aperture: Bar0ApertureLease,
    offset: u32,
    header: u32,
    next: Option<u32>,
    maximum_ports: u8,
    secret: u64,
    log: Seq<DwordRead<E>>,
    at: int,
) -> Option<(Result<SupportedProtocol, SupportedProtocolError<E>>, int)> {
    match body_run(aperture, offset, header, next, log, at) {
        None => None,
        Some((Err(error), after)) => Some((Err(error), after)),
        Some((Ok(body), fixed)) => match body.validate::<E>(maximum_ports, aperture.length) {
            Err(error) => Some((Err(error), fixed)),
            Ok(kind) => match speeds_run(
                aperture,
                offset,
                speed_count_of(body.ports),
                Seq::<u32>::empty(),
                log,
                fixed,
            ) {
                None => None,
                Some((Err(error), after)) => Some((Err(error), after)),
                Some((Ok(speeds), after)) => match unpaired_from(speeds, 0) {
                    Some(index) => Some(
                        (
                            Err(
                                SupportedProtocolError::UnpairedAsymmetricProtocolSpeed {
                                    offset: speed_offset(offset, index),
                                    speed_id: speed_id_of(speeds[index]),
                                },
                            ),
                            after,
                        ),
                    ),
                    None => Some((Ok(body.protocol(kind, speeds, secret)), after)),
                },
            },
        },
    }
}

fn read_supported_protocol<R: CheckedSupportedProtocolRead>(
    aperture: &Bar0ApertureLease,
    offset: u32,
    header: u32,
    next: Option<u32>,
    maximum_ports: u8,
    secret: u64,
    trace: &mut ProtocolTrace<R>,
) -> (result: Result<SupportedProtocol, SupportedProtocolError<R::Error>>)
    ensures
        crate::trace::continues(final(trace).log(), old(trace).log()),
        forall|log: Seq<DwordRead<R::Error>>| #[trigger]
            crate::trace::continues(log, final(trace).log()) ==> protocol_run(
                *aperture,
                offset,
                header,
                next,
                maximum_ports,
                secret,
                log,
                old(trace).log().len() as int,
            ) == Some((result, final(trace).log().len() as int)),
        result matches Ok(protocol) ==> protocol.first_port != 0 && protocol.port_count != 0
            && protocol.first_port + protocol.port_count - 1 <= maximum_ports,
{
    let body = match read_body(aperture, offset, header, next, trace) {
        Err(error) => {
            return Err(error);
        },
        Ok(body) => body,
    };
    let kind = match body.validate(maximum_ports, aperture.length) {
        Err(error) => {
            return Err(error);
        },
        Ok(kind) => kind,
    };
    let ghost fixed = trace.log();
    proof {
        let ports = body.ports;
        assert(((ports >> 28) & 0x0f) as u8 <= 15) by {
            crate::bits::lemma_word32(ports);
        }
    }
    let read = read_speeds(aperture, offset, speed_count_of(body.ports), trace);
    assert forall|log: Seq<DwordRead<R::Error>>| #[trigger]
        crate::trace::continues(log, trace.log()) implies crate::trace::continues(
        log,
        fixed,
    ) by {}
    let speeds = match read {
        Err(error) => {
            return Err(error);
        },
        Ok(speeds) => speeds,
    };
    match find_unpaired(&speeds) {
        Some(index) => Err(
            SupportedProtocolError::UnpairedAsymmetricProtocolSpeed {
                offset: offset + SUPPORTED_PROTOCOL_FIXED_BYTES + index as u32 * 4,
                speed_id: speed_id_of(speeds[index]),
            },
        ),
        None => Ok(body.assemble(kind, &speeds, secret)),
    }
}

/// The first protocol, from a place on, that covers a port.
pub open spec fn covering(protocols: Seq<SupportedProtocol>, port: int, from: int) -> Option<int>
    decreases protocols.len() - from,
{
    if from < 0 || from >= protocols.len() {
        None
    } else if protocols[from].covers(port) {
        Some(from)
    } else {
        covering(protocols, port, from + 1)
    }
}

fn find_covering(protocols: &Vec<SupportedProtocol>, port: u16) -> (found: Option<usize>)
    ensures
        covering(protocols@, port as int, 0) == (match found {
            Some(index) => Some(index as int),
            None => None::<int>,
        }),
        found matches Some(index) ==> index < protocols@.len(),
{
    let mut index: usize = 0;
    while index < protocols.len()
        invariant
            index <= protocols@.len(),
            covering(protocols@, port as int, 0) == covering(
                protocols@,
                port as int,
                index as int,
            ),
        decreases protocols@.len() - index,
    {
        let prior = &protocols[index];
        if port >= prior.first_port as u16 && port < prior.first_port as u16
            + prior.port_count as u16 {
            return Some(index);
        }
        index = index + 1;
    }
    None
}

/// The first protocol, from a place on, with the very same ports.
pub open spec fn same_ports(
    protocols: Seq<SupportedProtocol>,
    protocol: SupportedProtocol,
    from: int,
) -> Option<int>
    decreases protocols.len() - from,
{
    if from < 0 || from >= protocols.len() {
        None
    } else if protocols[from].first_port == protocol.first_port && protocols[from].port_count
        == protocol.port_count {
        Some(from)
    } else {
        same_ports(protocols, protocol, from + 1)
    }
}

/// The overlap of the lowest port, from one on, that is covered already.
pub open spec fn overlap_from<E>(
    protocols: Seq<SupportedProtocol>,
    protocol: SupportedProtocol,
    port: int,
) -> Option<SupportedProtocolError<E>>
    decreases protocol.first_port + protocol.port_count - port,
{
    if port >= protocol.first_port + protocol.port_count {
        None
    } else {
        match covering(protocols, port, 0) {
            Some(prior) => Some(
                SupportedProtocolError::OverlappingProtocolCoverage {
                    offset: protocol.capability_offset,
                    prior_offset: protocols[prior].capability_offset,
                    port: port as u8,
                },
            ),
            None => overlap_from(protocols, protocol, port + 1),
        }
    }
}

/// What a protocol is refused for, after the protocols before it.
pub open spec fn coverage_fault<E>(
    protocols: Seq<SupportedProtocol>,
    protocol: SupportedProtocol,
) -> Option<SupportedProtocolError<E>> {
    match same_ports(protocols, protocol, 0) {
        Some(prior) => Some(
            SupportedProtocolError::DuplicateProtocolCoverage {
                offset: protocol.capability_offset,
                prior_offset: protocols[prior].capability_offset,
            },
        ),
        None => overlap_from(protocols, protocol, protocol.first_port as int),
    }
}

fn validate_protocol_coverage<E>(
    protocols: &Vec<SupportedProtocol>,
    protocol: SupportedProtocol,
) -> (fault: Option<SupportedProtocolError<E>>)
    requires
        protocol.first_port + protocol.port_count <= 256,
    ensures
        fault == coverage_fault::<E>(protocols@, protocol),
{
    let mut index: usize = 0;
    while index < protocols.len()
        invariant
            index <= protocols@.len(),
            same_ports(protocols@, protocol, 0) == same_ports(protocols@, protocol, index as int),
        decreases protocols@.len() - index,
    {
        let prior = &protocols[index];
        if prior.first_port == protocol.first_port && prior.port_count == protocol.port_count {
            return Some(
                SupportedProtocolError::DuplicateProtocolCoverage {
                    offset: protocol.capability_offset,
                    prior_offset: prior.capability_offset,
                },
            );
        }
        index = index + 1;
    }
    let end: u16 = protocol.first_port as u16 + protocol.port_count as u16;
    let mut port: u16 = protocol.first_port as u16;
    while port < end
        invariant
            protocol.first_port <= port <= end,
            end == protocol.first_port + protocol.port_count,
            end <= 256,
            same_ports(protocols@, protocol, 0) is None,
            overlap_from::<E>(protocols@, protocol, protocol.first_port as int) == overlap_from::<
                E,
            >(protocols@, protocol, port as int),
        decreases end - port,
    {
        match find_covering(protocols, port) {
            Some(prior) => {
                return Some(
                    SupportedProtocolError::OverlappingProtocolCoverage {
                        offset: protocol.capability_offset,
                        prior_offset: protocols[prior].capability_offset,
                        port: port as u8,
                    },
                );
            },
            None => {},
        }
        port = port + 1;
    }
    None
}

/// The bitmap of covered ports with the ports of one more protocol set.
pub open spec fn with_ports(words: Seq<u64>, first_port: int, port_count: int) -> Seq<u64>
    decreases port_count,
{
    if port_count <= 0 {
        words
    } else {
        let bit = first_port + port_count - 2;
        let below = with_ports(words, first_port, port_count - 1);
        below.update(bit / 64, below[bit / 64] | (1u64 << ((bit % 64) as u64)))
    }
}

/// The bitmap of the ports that some protocol covers, lowest port first.
pub open spec fn port_words(protocols: Seq<SupportedProtocol>) -> Seq<u64>
    decreases protocols.len(),
{
    if protocols.len() == 0 {
        seq![0u64, 0u64, 0u64, 0u64]
    } else {
        with_ports(
            port_words(protocols.drop_last()),
            protocols.last().first_port as int,
            protocols.last().port_count as int,
        )
    }
}

fn cover_ports(words: &mut Vec<u64>, protocol: SupportedProtocol)
    requires
        old(words)@.len() == 4,
        protocol.first_port != 0,
        protocol.first_port + protocol.port_count <= 256,
    ensures
        final(words)@ == with_ports(
            old(words)@,
            protocol.first_port as int,
            protocol.port_count as int,
        ),
        final(words)@.len() == 4,
{
    let mut count: u16 = 0;
    while count < protocol.port_count as u16
        invariant
            count <= protocol.port_count,
            words@.len() == 4,
            protocol.first_port != 0,
            protocol.first_port + protocol.port_count <= 256,
            words@ == with_ports(old(words)@, protocol.first_port as int, count as int),
        decreases protocol.port_count - count,
    {
        let bit: u64 = protocol.first_port as u64 + count as u64 - 1;
        let word: usize = (bit / 64) as usize;
        let mask: u64 = 1u64 << (bit % 64);
        words.set(word, words[word] | mask);
        count = count + 1;
    }
}

proof fn lemma_with_ports_keeps_four(words: Seq<u64>, first_port: int, port_count: int)
    requires
        words.len() == 4,
        1 <= first_port,
        first_port + port_count <= 256,
    ensures
        with_ports(words, first_port, port_count).len() == 4,
    decreases port_count,
{
    if port_count > 0 {
        lemma_with_ports_keeps_four(words, first_port, port_count - 1);
    }
}

proof fn lemma_with_ports_sets_exactly(words: Seq<u64>, first_port: int, port_count: int, port: int)
    requires
        words.len() == 4,
        1 <= first_port,
        first_port + port_count <= 256,
        1 <= port <= 255,
    ensures
        with_ports(words, first_port, port_count).len() == 4,
        port_is_set(with_ports(words, first_port, port_count), port) == (port_is_set(words, port)
            || first_port <= port < first_port + port_count),
    decreases port_count,
{
    lemma_with_ports_keeps_four(words, first_port, port_count);
    if port_count > 0 {
        lemma_with_ports_sets_exactly(words, first_port, port_count - 1, port);
        lemma_with_ports_keeps_four(words, first_port, port_count - 1);
        let below = with_ports(words, first_port, port_count - 1);
        let bit = first_port + port_count - 2;
        let word = below[bit / 64];
        let set = (bit % 64) as u64;
        let asked = ((port - 1) % 64) as u64;
        assert((word | (1u64 << set)) & (1u64 << asked) != 0 <==> (word & (1u64 << asked) != 0
            || set == asked)) by (bit_vector)
            requires
                set < 64,
                asked < 64,
        ;
    }
}

/// Whether a bitmap of ports holds a port.
pub open spec fn port_is_set(words: Seq<u64>, port: int) -> bool {
    words[(port - 1) / 64] & (1u64 << (((port - 1) % 64) as u64)) != 0
}

/// The bitmap that the root seals holds a port exactly where some protocol
/// covers it.
pub proof fn law_the_bitmap_holds_the_covered_ports(protocols: Seq<SupportedProtocol>, port: int)
    requires
        1 <= port <= 255,
        forall|i: int|
            0 <= i < protocols.len() ==> 1 <= (#[trigger] protocols[i]).first_port
                && protocols[i].first_port + protocols[i].port_count <= 256,
    ensures
        port_words(protocols).len() == 4,
        port_is_set(port_words(protocols), port) <==> exists|i: int|
            0 <= i < protocols.len() && (#[trigger] protocols[i]).covers(port),
    decreases protocols.len(),
{
    if protocols.len() == 0 {
        let asked = ((port - 1) % 64) as u64;
        assert(0u64 & (1u64 << asked) == 0) by (bit_vector);
    } else {
        let head = protocols.drop_last();
        law_the_bitmap_holds_the_covered_ports(head, port);
        lemma_with_ports_sets_exactly(
            port_words(head),
            protocols.last().first_port as int,
            protocols.last().port_count as int,
            port,
        );
        assert(protocols.last() == protocols[protocols.len() - 1]);
        assert forall|i: int|
            0 <= i < protocols.len() && (#[trigger] protocols[i]).covers(
                port,
            ) implies port_is_set(port_words(protocols), port) by {
            if i < head.len() {
                assert(head[i] == protocols[i]);
            }
        }
        if port_is_set(port_words(head), port) {
            let i = choose|i: int| 0 <= i < head.len() && (#[trigger] head[i]).covers(port);
            assert(protocols[i].covers(port));
        }
    }
}

/// How far a walk of the capability chain has come.
pub struct ProtocolWalk {
    pub visited: Seq<u32>,
    pub protocols: Seq<SupportedProtocol>,
    pub words: Seq<u64>,
}

/// The words that the root seals before the walk begins.
pub open spec fn walk_words(
    aperture: Bar0ApertureLease,
    initial_offset: u32,
    maximum_ports: u8,
) -> Seq<u64> {
    seq![
        aperture.physical_base,
        aperture.length,
        initial_offset as u64,
        maximum_ports as u64,
    ]
}

/// A walk of the chain from a capability on, by the transcript.
pub open spec fn walk_run<E>(
    aperture: Bar0ApertureLease,
    maximum_ports: u8,
    secret: u64,
    offset: u32,
    walk: ProtocolWalk,
    log: Seq<DwordRead<E>>,
    at: int,
) -> Option<(Result<ProtocolWalk, SupportedProtocolError<E>>, int)>
    decreases MAXIMUM_EXTENDED_CAPABILITY_HOPS - walk.visited.len(),
{
    if offset == 0 {
        Some((Ok(walk), at))
    } else {
        match validate_capability_offset::<E>(offset, aperture.length) {
            Err(error) => Some((Err(error), at)),
            Ok(_) => if walk.visited.contains(offset) {
                Some(
                    (Err(SupportedProtocolError::CapabilityCycle { from: offset, to: offset }), at),
                )
            } else if walk.visited.len() >= MAXIMUM_EXTENDED_CAPABILITY_HOPS {
                Some((Err(SupportedProtocolError::ExtendedCapabilityCapacity), at))
            } else {
                match dword_run(aperture, offset, log, at) {
                    None => None,
                    Some((Err(error), after)) => Some((Err(error), after)),
                    Some((Ok(header), after)) => match relative_next::<E>(
                        offset,
                        ((header >> 8) & 0xff) as u8,
                        aperture.length,
                    ) {
                        Err(error) => Some((Err(error), after)),
                        Ok(next) => match hop_run(
                            aperture,
                            maximum_ports,
                            secret,
                            offset,
                            header,
                            next,
                            walk,
                            log,
                            after,
                        ) {
                            None => None,
                            Some((Err(error), end)) => Some((Err(error), end)),
                            Some((Ok(grown), end)) => if grown.visited.len()
                                == walk.visited.len() + 1 {
                                walk_run(
                                    aperture,
                                    maximum_ports,
                                    secret,
                                    match next {
                                        Some(register) => register,
                                        None => 0,
                                    },
                                    grown,
                                    log,
                                    end,
                                )
                            } else {
                                None
                            },
                        },
                    },
                }
            },
        }
    }
}

/// What one capability adds to a walk.
pub open spec fn hop_run<E>(
    aperture: Bar0ApertureLease,
    maximum_ports: u8,
    secret: u64,
    offset: u32,
    header: u32,
    next: Option<u32>,
    walk: ProtocolWalk,
    log: Seq<DwordRead<E>>,
    at: int,
) -> Option<(Result<ProtocolWalk, SupportedProtocolError<E>>, int)> {
    let passed = ProtocolWalk {
        visited: walk.visited.push(offset),
        protocols: walk.protocols,
        words: walk.words.push(offset as u64).push(header as u64),
    };
    if header as u8 != SUPPORTED_PROTOCOL_CAPABILITY_ID {
        Some((Ok(passed), at))
    } else if walk.protocols.len() >= MAXIMUM_SUPPORTED_PROTOCOLS {
        Some((Err(SupportedProtocolError::SupportedProtocolCapacity), at))
    } else {
        match protocol_run(aperture, offset, header, next, maximum_ports, secret, log, at) {
            None => None,
            Some((Err(error), after)) => Some((Err(error), after)),
            Some((Ok(protocol), after)) => match coverage_fault::<E>(walk.protocols, protocol) {
                Some(error) => Some((Err(error), after)),
                None => Some(
                    (
                        Ok(
                            ProtocolWalk {
                                visited: passed.visited,
                                protocols: walk.protocols.push(protocol),
                                words: passed.words.push(protocol.capability_root),
                            },
                        ),
                        after,
                    ),
                ),
            },
        }
    }
}

/// Whether some protocol starts at the first port.
pub open spec fn starts_at_port_one(protocols: Seq<SupportedProtocol>) -> bool {
    exists|i: int| 0 <= i < protocols.len() && (#[trigger] protocols[i]).first_port == 1
}

/// What a finished walk amounts to.
pub open spec fn findings_of<E>(
    aperture: Bar0ApertureLease,
    initial_offset: u32,
    maximum_ports: u8,
    secret: u64,
    walk: ProtocolWalk,
) -> Result<ProtocolFindings, SupportedProtocolError<E>> {
    if walk.protocols.len() == 0 {
        Err(SupportedProtocolError::MissingSupportedProtocol)
    } else if !starts_at_port_one(walk.protocols) {
        Err(SupportedProtocolError::MissingPortOneCoverage)
    } else {
        Ok(
            ProtocolFindings {
                protocols: walk.protocols,
                extended_capability_count: walk.visited.len() as u8,
                initial_offset,
                maximum_ports,
                aperture_base: aperture.physical_base,
                aperture_bytes: aperture.length,
                root: canonical_root(
                    crate::seal::seal_of(
                        secret ^ ROOT_DOMAIN,
                        walk.words + seq![
                            walk.protocols.len() as u64,
                            walk.visited.len() as u64,
                        ] + port_words(walk.protocols),
                    ),
                ),
            },
        )
    }
}

/// What decoding a chain gives, by the transcript.
pub open spec fn decode_run<E>(
    aperture: Bar0ApertureLease,
    initial_offset: u32,
    maximum_ports: u8,
    secret: u64,
    log: Seq<DwordRead<E>>,
    at: int,
) -> Option<(Result<ProtocolFindings, SupportedProtocolError<E>>, int)> {
    if secret == 0 {
        Some((Err(SupportedProtocolError::InvalidSecret), at))
    } else if maximum_ports == 0 {
        Some((Err(SupportedProtocolError::InvalidMaximumPorts), at))
    } else {
        match walk_run(
            aperture,
            maximum_ports,
            secret,
            initial_offset,
            ProtocolWalk {
                visited: Seq::empty(),
                protocols: Seq::empty(),
                words: walk_words(aperture, initial_offset, maximum_ports),
            },
            log,
            at,
        ) {
            None => None,
            Some((Err(error), after)) => Some((Err(error), after)),
            Some((Ok(walk), after)) => Some(
                (findings_of(aperture, initial_offset, maximum_ports, secret, walk), after),
            ),
        }
    }
}

/// The walk as the program carries it.
struct ChainWalk {
    visited: Vec<u32>,
    protocols: Vec<SupportedProtocol>,
    covered: Vec<u64>,
    sealer: Sealer,
}

impl ChainWalk {
    spec fn walk(self) -> ProtocolWalk {
        ProtocolWalk {
            visited: self.visited@,
            protocols: self.protocols@,
            words: self.sealer.words(),
        }
    }

    spec fn wf(self, secret: u64) -> bool {
        &&& self.visited@.len() <= MAXIMUM_EXTENDED_CAPABILITY_HOPS
        &&& self.protocols@.len() <= MAXIMUM_SUPPORTED_PROTOCOLS
        &&& self.sealer.seed() == secret ^ ROOT_DOMAIN
        &&& self.covered@ == port_words(self.protocols@)
        &&& self.covered@.len() == 4
    }

    fn knows(&self, offset: u32) -> (known: bool)
        ensures
            known == self.visited@.contains(offset),
    {
        let mut index: usize = 0;
        while index < self.visited.len()
            invariant
                index <= self.visited@.len(),
                forall|i: int| 0 <= i < index ==> self.visited@[i] != offset,
            decreases self.visited@.len() - index,
        {
            if self.visited[index] == offset {
                return true;
            }
            index = index + 1;
        }
        false
    }

    fn starts_at_port_one(&self) -> (found: bool)
        ensures
            found == starts_at_port_one(self.protocols@),
    {
        let mut index: usize = 0;
        while index < self.protocols.len()
            invariant
                index <= self.protocols@.len(),
                forall|i: int|
                    0 <= i < index ==> (#[trigger] self.protocols@[i]).first_port != 1,
            decreases self.protocols@.len() - index,
        {
            if self.protocols[index].first_port == 1 {
                return true;
            }
            index = index + 1;
        }
        false
    }

    /// Takes one capability into the walk.
    fn hop<R: CheckedSupportedProtocolRead>(
        self,
        aperture: &Bar0ApertureLease,
        maximum_ports: u8,
        secret: u64,
        offset: u32,
        header: u32,
        next: Option<u32>,
        trace: &mut ProtocolTrace<R>,
    ) -> (result: Result<ChainWalk, SupportedProtocolError<R::Error>>)
        requires
            self.wf(secret),
            self.visited@.len() < MAXIMUM_EXTENDED_CAPABILITY_HOPS,
        ensures
            crate::trace::continues(final(trace).log(), old(trace).log()),
            forall|log: Seq<DwordRead<R::Error>>| #[trigger]
                crate::trace::continues(log, final(trace).log()) ==> hop_run(
                    *aperture,
                    maximum_ports,
                    secret,
                    offset,
                    header,
                    next,
                    self.walk(),
                    log,
                    old(trace).log().len() as int,
                ) == Some(
                    (
                        match result {
                            Ok(grown) => Ok::<ProtocolWalk, SupportedProtocolError<R::Error>>(
                                grown.walk(),
                            ),
                            Err(error) => Err(error),
                        },
                        final(trace).log().len() as int,
                    ),
                ),
            result matches Ok(grown) ==> grown.wf(secret) && grown.visited@.len()
                == self.visited@.len() + 1,
    {
        let ghost before = self.walk();
        let ChainWalk { mut visited, mut protocols, mut covered, sealer } = self;
        visited.push(offset);
        let sealer = sealer.word(offset as u64).word(header as u64);
        if header as u8 != SUPPORTED_PROTOCOL_CAPABILITY_ID {
            return Ok(ChainWalk { visited, protocols, covered, sealer });
        }
        if protocols.len() >= MAXIMUM_SUPPORTED_PROTOCOLS {
            return Err(SupportedProtocolError::SupportedProtocolCapacity);
        }
        let protocol = match read_supported_protocol(
            aperture,
            offset,
            header,
            next,
            maximum_ports,
            secret,
            trace,
        ) {
            Err(error) => {
                return Err(error);
            },
            Ok(protocol) => protocol,
        };
        match validate_protocol_coverage::<R::Error>(&protocols, protocol) {
            Some(error) => {
                return Err(error);
            },
            None => {},
        }
        cover_ports(&mut covered, protocol);
        protocols.push(protocol);
        proof {
            assert(protocols@.drop_last() =~= before.protocols);
        }
        let sealer = sealer.word(protocol.capability_root);
        Ok(ChainWalk { visited, protocols, covered, sealer })
    }
}

/// A decoded chain, by what its evidence says.
pub open spec fn decoded<E>(
    result: Result<SupportedProtocolEvidence, SupportedProtocolError<E>>,
) -> Result<ProtocolFindings, SupportedProtocolError<E>> {
    match result {
        Ok(evidence) => Ok(evidence@),
        Err(error) => Err(error),
    }
}

fn walk_chain<R: CheckedSupportedProtocolRead>(
    aperture: &Bar0ApertureLease,
    initial_offset: u32,
    maximum_ports: u8,
    secret: u64,
    start: ChainWalk,
    trace: &mut ProtocolTrace<R>,
) -> (result: Result<ChainWalk, SupportedProtocolError<R::Error>>)
    requires
        start.wf(secret),
    ensures
        crate::trace::continues(final(trace).log(), old(trace).log()),
        forall|log: Seq<DwordRead<R::Error>>| #[trigger]
            crate::trace::continues(log, final(trace).log()) ==> walk_run(
                *aperture,
                maximum_ports,
                secret,
                initial_offset,
                start.walk(),
                log,
                old(trace).log().len() as int,
            ) == Some(
                (
                    match result {
                        Ok(walk) => Ok::<ProtocolWalk, SupportedProtocolError<R::Error>>(
                            walk.walk(),
                        ),
                        Err(error) => Err(error),
                    },
                    final(trace).log().len() as int,
                ),
            ),
        result matches Ok(walk) ==> walk.wf(secret),
{
    let mut walk = start;
    let mut offset: u32 = initial_offset;
    while offset != 0
        invariant
            walk.wf(secret),
            crate::trace::continues(trace.log(), old(trace).log()),
            forall|log: Seq<DwordRead<R::Error>>| #[trigger]
                crate::trace::continues(log, trace.log()) ==> walk_run(
                    *aperture,
                    maximum_ports,
                    secret,
                    initial_offset,
                    start.walk(),
                    log,
                    old(trace).log().len() as int,
                ) == walk_run(
                    *aperture,
                    maximum_ports,
                    secret,
                    offset,
                    walk.walk(),
                    log,
                    trace.log().len() as int,
                ),
        decreases MAXIMUM_EXTENDED_CAPABILITY_HOPS - walk.visited@.len(),
    {
        match validate_capability_offset(offset, aperture.length) {
            Err(error) => {
                return Err(error);
            },
            Ok(()) => {},
        }
        if walk.knows(offset) {
            return Err(SupportedProtocolError::CapabilityCycle { from: offset, to: offset });
        }
        if walk.visited.len() >= MAXIMUM_EXTENDED_CAPABILITY_HOPS {
            return Err(SupportedProtocolError::ExtendedCapabilityCapacity);
        }
        let ghost head = trace.log();
        let read = trace.read_u32(aperture, offset);
        assert forall|log: Seq<DwordRead<R::Error>>| #[trigger]
            crate::trace::continues(log, trace.log()) implies crate::trace::continues(
            log,
            head,
        ) by {}
        let header: u32 = match read {
            Err(error) => {
                return Err(error);
            },
            Ok(header) => header,
        };
        let next = match relative_next(offset, ((header >> 8) & 0xff) as u8, aperture.length) {
            Err(error) => {
                return Err(error);
            },
            Ok(next) => next,
        };
        let ghost after = trace.log();
        let hopped = walk.hop(aperture, maximum_ports, secret, offset, header, next, trace);
        assert forall|log: Seq<DwordRead<R::Error>>| #[trigger]
            crate::trace::continues(log, trace.log()) implies crate::trace::continues(log, head)
            && crate::trace::continues(log, after) by {}
        walk = match hopped {
            Err(error) => {
                return Err(error);
            },
            Ok(grown) => grown,
        };
        offset = match next {
            Some(register) => register,
            None => 0,
        };
    }
    Ok(walk)
}

/// Decodes the extended capability chain that starts at an offset.
///
/// Every offset and every body must lie inside the aperture, and some protocol
/// must start at the first port.
pub fn decode_supported_protocols<R: CheckedSupportedProtocolRead>(
    aperture: &Bar0ApertureLease,
    initial_offset: u32,
    maximum_ports: u8,
    secret: u64,
    trace: &mut ProtocolTrace<R>,
) -> (result: Result<SupportedProtocolEvidence, SupportedProtocolError<R::Error>>)
    ensures
        crate::trace::continues(final(trace).log(), old(trace).log()),
        forall|log: Seq<DwordRead<R::Error>>| #[trigger]
            crate::trace::continues(log, final(trace).log()) ==> decode_run(
                *aperture,
                initial_offset,
                maximum_ports,
                secret,
                log,
                old(trace).log().len() as int,
            ) == Some((decoded(result), final(trace).log().len() as int)),
        result matches Ok(evidence) ==> evidence.protocols@.len() <= MAXIMUM_SUPPORTED_PROTOCOLS,
{
    if secret == 0 {
        return Err(SupportedProtocolError::InvalidSecret);
    }
    if maximum_ports == 0 {
        return Err(SupportedProtocolError::InvalidMaximumPorts);
    }
    let sealer = Sealer::new(secret ^ ROOT_DOMAIN).word(aperture.physical_base).word(
        aperture.length,
    ).word(initial_offset as u64).word(maximum_ports as u64);
    assert(sealer.words() =~= walk_words(*aperture, initial_offset, maximum_ports));
    let mut covered: Vec<u64> = Vec::new();
    covered.push(0);
    covered.push(0);
    covered.push(0);
    covered.push(0);
    let start = ChainWalk { visited: Vec::new(), protocols: Vec::new(), covered, sealer };
    assert(start.covered@ =~= port_words(Seq::empty()));
    let walk = match walk_chain(
        aperture,
        initial_offset,
        maximum_ports,
        secret,
        start,
        trace,
    ) {
        Err(error) => {
            return Err(error);
        },
        Ok(walk) => walk,
    };
    if walk.protocols.len() == 0 {
        return Err(SupportedProtocolError::MissingSupportedProtocol);
    }
    if !walk.starts_at_port_one() {
        return Err(SupportedProtocolError::MissingPortOneCoverage);
    }
    let ghost words = walk.sealer.words() + seq![
        walk.protocols@.len() as u64,
        walk.visited@.len() as u64,
    ] + port_words(walk.protocols@);
    let sealer = walk.sealer.word(walk.protocols.len() as u64).word(
        walk.visited.len() as u64,
    ).word(walk.covered[0]).word(walk.covered[1]).word(walk.covered[2]).word(walk.covered[3]);
    assert(sealer.words() =~= words);
    let root: u64 = canonical_root(sealer.root());
    Ok(
        SupportedProtocolEvidence {
            extended_capability_count: walk.visited.len() as u8,
            protocols: walk.protocols,
            initial_offset,
            maximum_ports,
            aperture_base: aperture.physical_base,
            aperture_bytes: aperture.length,
            root,
        },
    )
}

/// Protocols that share no port and use no port past the last.
pub open spec fn divides_the_ports(protocols: Seq<SupportedProtocol>, maximum_ports: u8) -> bool {
    &&& forall|i: int|
        0 <= i < protocols.len() ==> 1 <= (#[trigger] protocols[i]).first_port && 1
            <= protocols[i].port_count && protocols[i].first_port + protocols[i].port_count - 1
            <= maximum_ports
    &&& forall|i: int, j: int, port: int|
        0 <= i < protocols.len() && 0 <= j < protocols.len() && i != j ==> !(
        #[trigger] protocols[i].covers(port) && #[trigger] protocols[j].covers(port))
}

proof fn lemma_nothing_covering(protocols: Seq<SupportedProtocol>, port: int, from: int)
    requires
        0 <= from,
        covering(protocols, port, from) is None,
    ensures
        forall|i: int| from <= i < protocols.len() ==> !(#[trigger] protocols[i]).covers(port),
    decreases protocols.len() - from,
{
    if from < protocols.len() {
        lemma_nothing_covering(protocols, port, from + 1);
    }
}

proof fn lemma_no_overlap<E>(
    protocols: Seq<SupportedProtocol>,
    protocol: SupportedProtocol,
    port: int,
)
    requires
        overlap_from::<E>(protocols, protocol, port) is None,
    ensures
        forall|i: int, other: int|
            0 <= i < protocols.len() && port <= other < protocol.first_port
                + protocol.port_count ==> !(#[trigger] protocols[i].covers(other)),
    decreases protocol.first_port + protocol.port_count - port,
{
    if port < protocol.first_port + protocol.port_count {
        lemma_nothing_covering(protocols, port, 0);
        lemma_no_overlap::<E>(protocols, protocol, port + 1);
    }
}

proof fn lemma_a_hop_divides<E>(
    aperture: Bar0ApertureLease,
    maximum_ports: u8,
    secret: u64,
    offset: u32,
    header: u32,
    next: Option<u32>,
    walk: ProtocolWalk,
    log: Seq<DwordRead<E>>,
    at: int,
)
    requires
        divides_the_ports(walk.protocols, maximum_ports),
    ensures
        match hop_run(
            aperture,
            maximum_ports,
            secret,
            offset,
            header,
            next,
            walk,
            log,
            at,
        ) {
            Some((Ok(grown), _)) => divides_the_ports(grown.protocols, maximum_ports)
                && grown.visited == walk.visited.push(offset),
            _ => true,
        },
{
    match protocol_run(aperture, offset, header, next, maximum_ports, secret, log, at) {
        Some((Ok(protocol), _)) => {
            if coverage_fault::<E>(walk.protocols, protocol) is None {
                lemma_no_overlap::<E>(walk.protocols, protocol, protocol.first_port as int);
                let grown = walk.protocols.push(protocol);
                assert forall|i: int, j: int, port: int|
                    0 <= i < grown.len() && 0 <= j < grown.len() && i != j implies !(
                #[trigger] grown[i].covers(port) && #[trigger] grown[j].covers(port)) by {
                    if i < walk.protocols.len() {
                        assert(grown[i] == walk.protocols[i]);
                    }
                    if j < walk.protocols.len() {
                        assert(grown[j] == walk.protocols[j]);
                    }
                }
            }
        },
        _ => {},
    }
}

proof fn lemma_a_walk_divides<E>(
    aperture: Bar0ApertureLease,
    maximum_ports: u8,
    secret: u64,
    offset: u32,
    walk: ProtocolWalk,
    log: Seq<DwordRead<E>>,
    at: int,
)
    requires
        divides_the_ports(walk.protocols, maximum_ports),
        walk.protocols.len() <= walk.visited.len() <= MAXIMUM_EXTENDED_CAPABILITY_HOPS,
    ensures
        match walk_run(aperture, maximum_ports, secret, offset, walk, log, at) {
            Some((Ok(done), _)) => divides_the_ports(done.protocols, maximum_ports)
                && done.protocols.len() <= done.visited.len() <= MAXIMUM_EXTENDED_CAPABILITY_HOPS,
            _ => true,
        },
    decreases MAXIMUM_EXTENDED_CAPABILITY_HOPS - walk.visited.len(),
{
    if offset != 0 && walk.visited.len() < MAXIMUM_EXTENDED_CAPABILITY_HOPS {
        match dword_run(aperture, offset, log, at) {
            Some((Ok(header), after)) => match relative_next::<E>(
                offset,
                ((header >> 8) & 0xff) as u8,
                aperture.length,
            ) {
                Ok(next) => {
                    lemma_a_hop_divides(
                        aperture,
                        maximum_ports,
                        secret,
                        offset,
                        header,
                        next,
                        walk,
                        log,
                        after,
                    );
                    match hop_run(
                        aperture,
                        maximum_ports,
                        secret,
                        offset,
                        header,
                        next,
                        walk,
                        log,
                        after,
                    ) {
                        Some((Ok(grown), end)) => {
                            lemma_a_walk_divides(
                                aperture,
                                maximum_ports,
                                secret,
                                match next {
                                    Some(register) => register,
                                    None => 0,
                                },
                                grown,
                                log,
                                end,
                            );
                        },
                        _ => {},
                    }
                },
                Err(_) => {},
            },
            _ => {},
        }
    }
}

/// Whatever the controller answers, the decoded protocols share no port, use no
/// port past the last, and one of them starts at the first port; the chain that
/// was walked is bounded, and the root is never zero.
pub proof fn law_decoded_protocols_divide_the_ports<E>(
    aperture: Bar0ApertureLease,
    initial_offset: u32,
    maximum_ports: u8,
    secret: u64,
    log: Seq<DwordRead<E>>,
    at: int,
    findings: ProtocolFindings,
    end: int,
)
    requires
        decode_run(aperture, initial_offset, maximum_ports, secret, log, at) == Some(
            (Ok::<ProtocolFindings, SupportedProtocolError<E>>(findings), end),
        ),
    ensures
        divides_the_ports(findings.protocols, maximum_ports),
        starts_at_port_one(findings.protocols),
        0 < findings.extended_capability_count <= MAXIMUM_EXTENDED_CAPABILITY_HOPS,
        findings.root != 0,
{
    let start = ProtocolWalk {
        visited: Seq::empty(),
        protocols: Seq::empty(),
        words: walk_words(aperture, initial_offset, maximum_ports),
    };
    lemma_a_walk_divides(aperture, maximum_ports, secret, initial_offset, start, log, at);
}

} // verus!
