//! Laws of host controller discovery.

use vstd::prelude::*;

use crate::device_census::DeviceAddress;
use crate::device_census::PciFunctionEvidence;
use crate::drivernet::configuration::ConfigurationEvent;
use crate::drivernet::fingerprint::PciFunctionAddress;
use crate::mmio::MmioAccessError;
use crate::mmio::MmioEvent;
use crate::mmio::MmioFault;
use crate::mmio::RegisterAccess;
use crate::pci::Bar0ApertureLease;
use crate::pci::PciAddress;
use crate::xhci::BootstrapFindings;
use crate::xhci::BootstrapRange;
use crate::xhci::CapabilityRegisters;
use crate::xhci::ReadyHalted;
use crate::xhci::RegisterBoundary;
use crate::xhci::RetainedController;
use crate::xhci::TakeoverFaultClass;
use crate::xhci::TakeoverPhase;
use crate::xhci::XhciActivationError;
use crate::xhci::XhciActivationFailure;
use crate::xhci::XhciBootstrap;
use crate::xhci::XhciCapabilitySnapshot;
use crate::xhci::XhciCensusEntry;
use crate::xhci::XhciDebtClass;
use crate::xhci::XhciProbeError;
use crate::xhci::XhciRegisterError;
use crate::xhci::XhciRetentionError;
use crate::xhci_protocol::ProtocolFindings;
use crate::xhci_protocol::SupportedProtocol;
use crate::xhci_protocol::UsbProtocolKind;

verus! {

/// Every hexadecimal digit of a packed decimal number is at most nine.
pub proof fn law_packed_decimal_digits(value: u16)
    ensures
        crate::xhci::is_packed_bcd(value) <==> value % 16 <= 9 && value / 16 % 16 <= 9 && value
            / 256 % 16 <= 9 && value / 4096 <= 9,
{
    crate::bits::lemma_word16(value);
}

/// A sound set of capability registers decodes into the fields of its words:
/// the capability length is the low byte of the first word and the interface
/// version its high half; device slots, interrupters and ports come from the
/// second word; 64-bit addressing is bit 0 and 64-byte contexts bit 2 of the
/// fourth.
pub proof fn law_a_snapshot_holds_the_register_fields(
    address: DeviceAddress,
    evidence_root: u64,
    binding_root: u64,
    mmio_base: u64,
    registers: CapabilityRegisters,
    secret: u64,
    snapshot: XhciCapabilitySnapshot,
)
    requires
        crate::xhci::decoded_snapshot(
            address,
            evidence_root,
            binding_root,
            mmio_base,
            registers,
            secret,
        ) == Ok::<_, XhciProbeError>(snapshot),
    ensures
        snapshot.address == address,
        snapshot.evidence_root == evidence_root,
        snapshot.binding_root == binding_root,
        snapshot.mmio_base == mmio_base,
        snapshot.capability_length == registers.cap_version % 0x100,
        snapshot.interface_version == registers.cap_version / 0x1_0000,
        snapshot.maximum_device_slots == registers.hcsparams1 % 0x100,
        snapshot.maximum_interrupters == registers.hcsparams1 / 0x100 % 0x800,
        snapshot.maximum_ports == registers.hcsparams1 / 0x100_0000,
        snapshot.maximum_scratchpad_buffers == registers.hcsparams2 / 0x20_0000 % 0x20 * 0x20
            + registers.hcsparams2 / 0x800_0000,
        snapshot.supports_64_bit_addresses <==> registers.hccparams1 % 2 == 1,
        snapshot.uses_64_byte_contexts <==> registers.hccparams1 / 4 % 2 == 1,
        snapshot.extended_capabilities_offset == registers.hccparams1 / 0x1_0000 * 4,
        snapshot.doorbell_offset == registers.doorbell_offset,
        snapshot.runtime_offset == registers.runtime_offset,
        snapshot.legacy_support_offset == 0,
        snapshot.bootstrap_header_count == 0,
        snapshot.bootstrap_range_root == 0,
{
    crate::bits::lemma_word32(registers.cap_version);
    crate::bits::lemma_word32(registers.hcsparams1);
    crate::bits::lemma_word32(registers.hcsparams2);
    crate::bits::lemma_word32(registers.hccparams1);
    crate::bits::lemma_five_bits(
        ((registers.hcsparams2 >> 21) & 0x1f) as u16,
        ((registers.hcsparams2 >> 27) & 0x1f) as u16,
    );
}

/// Registers decode exactly when both roots are set, the capability length is
/// a multiple of four of at least 32, the interface version is a decimal
/// number from 0.96 to 1.20, there are slots, ports and one to 1024
/// interrupters, and doorbells and runtime registers lie behind the
/// capability registers.
pub proof fn law_when_registers_decode(
    address: DeviceAddress,
    evidence_root: u64,
    binding_root: u64,
    mmio_base: u64,
    registers: CapabilityRegisters,
    secret: u64,
)
    ensures
        crate::xhci::decoded_snapshot(
            address,
            evidence_root,
            binding_root,
            mmio_base,
            registers,
            secret,
        ) is Ok <==> {
            let length = registers.cap_version % 0x100;
            let version = registers.cap_version / 0x1_0000;
            let interrupters = registers.hcsparams1 / 0x100 % 0x800;
            &&& evidence_root != 0
            &&& binding_root != 0
            &&& length >= 32
            &&& length % 4 == 0
            &&& 0x96 <= version <= 0x120
            &&& version % 16 <= 9
            &&& version / 16 % 16 <= 9
            &&& registers.hcsparams1 % 0x100 > 0
            &&& 1 <= interrupters <= 1024
            &&& registers.hcsparams1 / 0x100_0000 > 0
            &&& registers.doorbell_offset >= length
            &&& registers.runtime_offset >= length
        },
{
    crate::bits::lemma_word32(registers.cap_version);
    crate::bits::lemma_word32(registers.hcsparams1);
    crate::bits::lemma_byte(registers.capability_length());
    law_packed_decimal_digits(registers.interface_version());
}

/// Which error a bad register comes back with: the length first, then the
/// version, then the geometry, then the register offsets.
pub proof fn law_the_first_bad_register_is_named(registers: CapabilityRegisters)
    ensures
        registers.fault() matches Some(XhciProbeError::InvalidCapabilityLength(length)) ==> length
            == registers.cap_version % 0x100 && (length < 32 || length % 4 != 0),
        registers.fault() matches Some(XhciProbeError::UnsupportedInterfaceVersion(version))
            ==> version == registers.cap_version / 0x1_0000 && registers.cap_version % 0x100 >= 32
            && registers.cap_version % 0x100 % 4 == 0,
        registers.cap_version % 0x100 < 32 ==> registers.fault() == Some(
            XhciProbeError::InvalidCapabilityLength((registers.cap_version % 0x100) as u8),
        ),
        registers.fault() == Some(XhciProbeError::InvalidGeometry) ==> registers.hcsparams1 % 0x100
            == 0 || registers.hcsparams1 / 0x100_0000 == 0 || registers.hcsparams1 / 0x100 % 0x800
            == 0 || registers.hcsparams1 / 0x100 % 0x800 > 1024,
        registers.fault() == Some(XhciProbeError::InvalidRegisterOffset) ==> (
        registers.doorbell_offset < registers.cap_version % 0x100 || registers.runtime_offset
            < registers.cap_version % 0x100) && registers.hcsparams1 % 0x100 > 0
            && registers.hcsparams1 / 0x100_0000 > 0,
{
    let length = registers.capability_length();
    assert(length == registers.cap_version % 0x100 && registers.interface_version()
        == registers.cap_version / 0x1_0000) by {
        crate::bits::lemma_word32(registers.cap_version);
    }
    assert(registers.hcsparams1 as u8 == registers.hcsparams1 % 0x100 && (registers.hcsparams1
        >> 24) as u8 == registers.hcsparams1 / 0x100_0000 && registers.maximum_interrupters()
        == registers.hcsparams1 / 0x100 % 0x800) by {
        crate::bits::lemma_word32(registers.hcsparams1);
    }
    assert(length & 0x03 == length % 4) by {
        crate::bits::lemma_byte(length);
    }
}

/// The six capability words are read in order at 0, 4, 8, 0x10, 0x14 and 0x18,
/// and the two offsets among them are rounded down to 4 and to 32 bytes.
pub proof fn law_capability_words_are_read_in_order(
    log: Seq<MmioEvent>,
    at: int,
    registers: CapabilityRegisters,
    end: int,
)
    requires
        crate::xhci::registers_run(Seq::empty(), log, at) == Some(
            (Ok::<_, MmioAccessError>(registers), end),
        ),
    ensures
        end == at + 6,
        0 <= at,
        end <= log.len(),
        log[at] == (MmioEvent::Read { offset: 0, reply: Ok(registers.cap_version) }),
        log[at + 1] == (MmioEvent::Read { offset: 4, reply: Ok(registers.hcsparams1) }),
        log[at + 2] == (MmioEvent::Read { offset: 8, reply: Ok(registers.hcsparams2) }),
        log[at + 3] == (MmioEvent::Read { offset: 0x10, reply: Ok(registers.hccparams1) }),
        log[at + 4] matches MmioEvent::Read { offset, reply: Ok(word) } && offset == 0x14
            && registers.doorbell_offset == word - word % 4,
        log[at + 5] matches MmioEvent::Read { offset, reply: Ok(word) } && offset == 0x18
            && registers.runtime_offset == word - word % 32,
{
    reveal_with_fuel(crate::xhci::registers_run, 7);
    crate::bits::lemma_word32(log[at + 4]->Read_reply->Ok_0);
    crate::bits::lemma_word32(log[at + 5]->Read_reply->Ok_0);
}

/// A base address register decodes exactly when it is present, of memory kind
/// and 32 or 64 bits wide; the address is the register without its low four
/// bits, with the next register as the upper half of a wide one.
pub proof fn law_a_memory_bar_is_its_address(evidence: PciFunctionEvidence, base: u64)
    ensures
        crate::xhci::decode_bar0(evidence) == Ok::<u64, XhciProbeError>(base) <==> {
            let low = evidence.raw_bars[0];
            &&& evidence.bar_count > 0
            &&& low != 0
            &&& low != u32::MAX
            &&& low % 2 == 0
            &&& base != 0
            &&& (low / 2 % 4 == 0 && base == low - low % 16) || (low / 2 % 4 == 2
                && evidence.bar_count >= 2 && base == evidence.raw_bars[1] * 0x1_0000_0000 + (low
                - low % 16))
        },
        crate::xhci::decode_bar0(evidence) == Err::<u64, _>(XhciProbeError::IoBar) <==>
            evidence.bar_count > 0 && evidence.raw_bars[0] != u32::MAX && evidence.raw_bars[0] % 2
            == 1,
{
    let low = evidence.raw_bars[0];
    crate::bits::lemma_word32(low);
    crate::bits::lemma_joined(evidence.raw_bars[1], low & !0x0f);
}

/// An extended capability points `4 * n` bytes ahead, where `n` is the second
/// byte of its header, and zero ends the list. Offsets are multiples of four
/// from 0x20 to 0xffffc.
pub proof fn law_the_next_header_is_counted_in_words(offset: u32, header: u32)
    requires
        offset <= 0xf_fffc,
    ensures
        header / 0x100 % 0x100 == 0 <==> crate::xhci::next_header(offset, header) == Ok::<
            u32,
            XhciProbeError,
        >(0),
        crate::xhci::next_header(offset, header) matches Ok(next) ==> next == 0 || (next
            - offset == header / 0x100 % 0x100 * 4 && 0x20 <= next <= 0xf_fffc && next % 4 == 0),
        crate::xhci::next_header(offset, header) matches Err(error) ==> error
            == XhciProbeError::InvalidBootstrapOffset((offset + header / 0x100 % 0x100 * 4) as u32)
            && (offset + header / 0x100 % 0x100 * 4 < 0x20 || offset % 4 != 0 || offset + header
            / 0x100 % 0x100 * 4 > 0xf_fffc),
{
    crate::bits::lemma_word32(header);
    let next = (offset + ((header >> 8) & 0xff) * 4) as u32;
    crate::bits::lemma_word32(next);
}

/// A legacy support capability, whose identifier is 1, spans eight bytes and
/// every other capability four; the eight may not run into the next header.
pub proof fn law_legacy_support_spans_two_words(offset: u32, header: u32, next: u32)
    ensures
        crate::xhci::header_range(offset, header, next) matches Ok(range) ==> range.offset == offset
            && range.length == (if header % 0x100 == 1 {
            8int
        } else {
            4int
        }),
        crate::xhci::header_range(offset, header, next) is Err <==> header % 0x100 == 1 && next > 0
            && next < offset + 8,
{
    crate::bits::lemma_word32(header);
}

/// One header read of a bootstrap walk opens four bytes at the base plus the
/// offset, reads them once, and closes the window.
pub proof fn law_a_header_is_read_at_its_address(
    mmio_base: u64,
    offset: u32,
    log: Seq<MmioEvent>,
    at: int,
    header: u32,
    end: int,
)
    requires
        crate::xhci::header_run(mmio_base, offset, log, at) == Some(
            (Ok::<_, XhciProbeError>(header), end),
        ),
    ensures
        end == at + 3,
        0 <= at,
        end <= log.len(),
        log[at] matches MmioEvent::Open { physical, length, mapped } && physical == mmio_base
            + offset && length == 4 && mapped is None,
        log[at + 1] == (MmioEvent::Access { access: RegisterAccess::Read32, reply: Ok(header) }),
        log[at + 2] == MmioEvent::Close(0),
{
}

/// What a finished bootstrap walk found: at most 64 ranges at rising, aligned
/// offsets from the initial one on; only the last can be a legacy support
/// range, and its offset is then the one reported.
pub open spec fn walk_is_sound(initial: u32, found: BootstrapFindings) -> bool {
    let ranges = found.ranges;
    &&& ranges.len() <= 64
    &&& initial == 0 <==> ranges.len() == 0
    &&& ranges.len() > 0 ==> ranges[0].offset == initial
    &&& forall|i: int|
        #![trigger ranges[i]]
        0 <= i < ranges.len() ==> {
            &&& 0x20 <= ranges[i].offset <= 0xf_fffc
            &&& ranges[i].offset % 4 == 0
            &&& ranges[i].length == 4 || (i == ranges.len() - 1 && ranges[i].length == 8)
        }
    &&& forall|i: int, j: int|
        #![trigger ranges[i], ranges[j]]
        0 <= i < j < ranges.len() ==> ranges[i].offset + 4 * (j - i) <= ranges[j].offset
    &&& found.legacy_support_offset != 0 <==> ranges.len() > 0 && ranges.last().length == 8
    &&& found.legacy_support_offset != 0 ==> found.legacy_support_offset == ranges.last().offset
}

/// A walk in progress: nothing but one-word ranges so far, and the next offset
/// lies behind them.
pub open spec fn walk_goes_on(initial: u32, offset: u32, found: BootstrapFindings) -> bool {
    let ranges = found.ranges;
    &&& found.legacy_support_offset == 0
    &&& ranges.len() <= 64
    &&& ranges.len() == 0 ==> offset == initial
    &&& ranges.len() > 0 ==> ranges[0].offset == initial && initial != 0
    &&& forall|i: int|
        #![trigger ranges[i]]
        0 <= i < ranges.len() ==> {
            &&& 0x20 <= ranges[i].offset <= 0xf_fffc
            &&& ranges[i].offset % 4 == 0
            &&& ranges[i].length == 4
            &&& offset != 0 ==> ranges[i].offset + 4 * (ranges.len() - i) <= offset
        }
    &&& forall|i: int, j: int|
        #![trigger ranges[i], ranges[j]]
        0 <= i < j < ranges.len() ==> ranges[i].offset + 4 * (j - i) <= ranges[j].offset
}

proof fn lemma_walk_is_sound(
    mmio_base: u64,
    initial: u32,
    offset: u32,
    found: BootstrapFindings,
    log: Seq<MmioEvent>,
    at: int,
    ended: BootstrapFindings,
    end: int,
)
    requires
        walk_goes_on(initial, offset, found),
        crate::xhci::discovery_run(mmio_base, offset, found, log, at) == Some(
            (Ok::<_, XhciProbeError>(ended), end),
        ),
    ensures
        walk_is_sound(initial, ended),
        end - at == 3 * (ended.ranges.len() - found.ranges.len()),
    decreases 64 - found.ranges.len(),
{
    if offset != 0 {
        crate::bits::lemma_word32(offset);
        let (read, after) = crate::xhci::header_run(mmio_base, offset, log, at).unwrap();
        let header = read->Ok_0;
        law_a_header_is_read_at_its_address(mmio_base, offset, log, at, header, after);
        law_the_next_header_is_counted_in_words(offset, header);
        let next = crate::xhci::next_header(offset, header)->Ok_0;
        law_legacy_support_spans_two_words(offset, header, next);
        crate::bits::lemma_word32(header);
        let range = crate::xhci::header_range(offset, header, next)->Ok_0;
        if header as u8 != 1 {
            let grown = BootstrapFindings {
                legacy_support_offset: found.legacy_support_offset,
                ranges: found.ranges.push(range),
                root: crate::xhci::journal_root_with(found.root, range, header),
            };
            assert(walk_goes_on(initial, next, grown));
            lemma_walk_is_sound(mmio_base, initial, next, grown, log, after, ended, end);
        }
    }
}

/// A bootstrap walk that succeeds yields a sound list of ranges, three window
/// operations for each.
pub proof fn law_a_bootstrap_walk_is_sound(
    mmio_base: u64,
    initial: u32,
    secret: u64,
    log: Seq<MmioEvent>,
    at: int,
    found: BootstrapFindings,
    end: int,
)
    requires
        crate::xhci::discovery_run(
            mmio_base,
            initial,
            crate::xhci::no_findings(secret, initial),
            log,
            at,
        ) == Some((Ok::<_, XhciProbeError>(found), end)),
    ensures
        walk_is_sound(initial, found),
        end - at == 3 * found.ranges.len(),
{
    lemma_walk_is_sound(
        mmio_base,
        initial,
        initial,
        crate::xhci::no_findings(secret, initial),
        log,
        at,
        found,
        end,
    );
}

/// The configuration header agrees with recorded evidence exactly when its
/// words are those fields joined: device and vendor, the low half of the
/// command word, class, subclass, interface and revision, and the third byte
/// of the header word.
pub proof fn law_an_unchanged_header_is_its_fields_joined(
    vendor_device: u32,
    command_status: u32,
    class_revision: u32,
    header: u32,
    evidence: PciFunctionEvidence,
)
    ensures
        crate::xhci::header_unchanged(
            vendor_device,
            command_status,
            class_revision,
            header,
            evidence,
        ) <==> {
            &&& vendor_device == evidence.device_id * 0x1_0000 + evidence.vendor_id
            &&& command_status % 0x1_0000 == evidence.command
            &&& class_revision == evidence.class_code * 0x100_0000 + evidence.subclass * 0x1_0000
                + evidence.programming_interface * 0x100 + evidence.revision
            &&& header / 0x1_0000 % 0x100 == evidence.header_type
        },
{
    crate::bits::lemma_parts(vendor_device, 0, 0, 0, 0, evidence.device_id, evidence.vendor_id);
    crate::bits::lemma_parts(
        class_revision,
        evidence.class_code,
        evidence.subclass,
        evidence.programming_interface,
        evidence.revision,
        0,
        0,
    );
    assert(command_status as u16 == command_status % 0x1_0000) by {
        crate::bits::lemma_word32(command_status);
    }
    assert((header >> 16) as u8 == header / 0x1_0000 % 0x100) by {
        crate::bits::lemma_word32(header);
    }
}

proof fn lemma_bars_unchanged(
    function: PciFunctionAddress,
    evidence: PciFunctionEvidence,
    index: int,
    log: Seq<ConfigurationEvent>,
    at: int,
    end: int,
)
    requires
        0 <= index <= evidence.bar_count <= 6,
        crate::xhci::bars_run(
            function,
            evidence,
            index,
            log,
            at,
        ) == Some((None::<XhciProbeError>, end)),
    ensures
        end == at + evidence.bar_count - index,
        forall|i: int|
            #![trigger evidence.raw_bars[i]]
            index <= i < evidence.bar_count ==> log[at + i - index] == (ConfigurationEvent::Word {
                address: function,
                offset: (0x10 + 4 * i) as u16,
                reply: Ok(evidence.raw_bars[i]),
            }),
    decreases evidence.bar_count - index,
{
    if index < evidence.bar_count {
        lemma_bars_unchanged(function, evidence, index + 1, log, at + 1, end);
        assert forall|i: int|
            #![trigger evidence.raw_bars[i]]
            index <= i < evidence.bar_count implies log[at + i - index] == (
        ConfigurationEvent::Word {
            address: function,
            offset: (0x10 + 4 * i) as u16,
            reply: Ok(evidence.raw_bars[i]),
        }) by {
            if i > index {
                assert(at + i - index == at + 1 + i - (index + 1));
            }
        }
    }
}

/// Evidence is confirmed only by reading the four header words at 0, 4, 8 and
/// 0xc and then each recorded base register at 0x10 and every four bytes on.
pub proof fn law_confirmed_evidence_was_read_again(
    function: PciFunctionAddress,
    evidence: PciFunctionEvidence,
    log: Seq<ConfigurationEvent>,
    at: int,
    end: int,
)
    requires
        evidence.bar_count <= 6,
        crate::xhci::configuration_run(function, evidence, log, at) == Some(
            (None::<XhciProbeError>, end),
        ),
    ensures
        end == at + 4 + evidence.bar_count,
        log[at] == (ConfigurationEvent::Word {
            address: function,
            offset: 0,
            reply: Ok((evidence.device_id * 0x1_0000 + evidence.vendor_id) as u32),
        }),
        log[at + 1] matches ConfigurationEvent::Word { address, offset, reply: Ok(word) } && address
            == function && offset == 4 && word % 0x1_0000 == evidence.command,
        log[at + 2] matches ConfigurationEvent::Word { address, offset, reply: Ok(word) } && address
            == function && offset == 8 && word == evidence.class_code * 0x100_0000
            + evidence.subclass * 0x1_0000 + evidence.programming_interface * 0x100
            + evidence.revision,
        log[at + 3] matches ConfigurationEvent::Word { address, offset, reply: Ok(word) } && address
            == function && offset == 0xc && word / 0x1_0000 % 0x100 == evidence.header_type,
        forall|i: int|
            #![trigger evidence.raw_bars[i]]
            0 <= i < evidence.bar_count ==> log[at + 4 + i] == (ConfigurationEvent::Word {
                address: function,
                offset: (0x10 + 4 * i) as u16,
                reply: Ok(evidence.raw_bars[i]),
            }),
{
    law_an_unchanged_header_is_its_fields_joined(
        log[at]->Word_reply->Ok_0,
        log[at + 1]->Word_reply->Ok_0,
        log[at + 2]->Word_reply->Ok_0,
        log[at + 3]->Word_reply->Ok_0,
        evidence,
    );
    lemma_bars_unchanged(function, evidence, 0, log, at + 4, end);
    assert forall|i: int|
        #![trigger evidence.raw_bars[i]]
        0 <= i < evidence.bar_count implies log[at + 4 + i] == (ConfigurationEvent::Word {
        address: function,
        offset: (0x10 + 4 * i) as u16,
        reply: Ok(evidence.raw_bars[i]),
    }) by {
        assert(at + 4 + i == at + 4 + i - 0);
    }
}

/// The phases of a takeover are numbered in the order in which they come.
pub proof fn law_phases_are_numbered_in_order()
    ensures
        0 == TakeoverPhase::ObserveLegacyOwnership.code(),
        TakeoverPhase::ObserveLegacyOwnership.code() < TakeoverPhase::ClaimLegacyOwnership.code()
            < TakeoverPhase::AwaitLegacyRelease.code() < TakeoverPhase::RequestHalt.code()
            < TakeoverPhase::AwaitHalt.code() < TakeoverPhase::AwaitMeasuredAperture.code()
            < TakeoverPhase::RequestReset.code() < TakeoverPhase::AwaitReset.code()
            < TakeoverPhase::ReadyHalted.code() < TakeoverPhase::Faulted.code(),
        TakeoverPhase::Faulted.code() == 9,
{
}

/// Just the three phases that write a register change the controller: each
/// stands directly before the phase that waits for its effect, but the aperture
/// is measured between halt and reset.
pub proof fn law_requests_change_the_controller(phase: TakeoverPhase)
    ensures
        phase.mutates() <==> phase.code() == 1 || phase.code() == 3 || phase.code() == 6,
{
}

/// The classes of a debt are numbered from 1 to 13 in a fixed order.
pub proof fn law_debt_classes_are_numbered_in_order()
    ensures
        XhciDebtClass::RegisterAccess.code() == 1,
        XhciDebtClass::RegisterAccess.code() < XhciDebtClass::Deadline.code()
            < XhciDebtClass::Timeout.code() < XhciDebtClass::HostControllerError.code()
            < XhciDebtClass::IllegalControllerState.code()
            < XhciDebtClass::ReadyHaltedInvariant.code() < XhciDebtClass::ApertureRequired.code()
            < XhciDebtClass::TerminalState.code() < XhciDebtClass::PciTransaction.code()
            < XhciDebtClass::ApertureBinding.code() < XhciDebtClass::Retention.code()
            < XhciDebtClass::StepCapacity.code() < XhciDebtClass::ProtocolEvidence.code(),
        XhciDebtClass::ProtocolEvidence.code() == 13,
{
}

/// Every fault of the takeover machine becomes a debt class of its own, below
/// the classes that the driver adds.
pub proof fn law_machine_faults_keep_their_class(
    class: TakeoverFaultClass,
    other: TakeoverFaultClass,
)
    ensures
        XhciDebtClass::from_machine(class).code() <= 8,
        XhciDebtClass::from_machine(class) == XhciDebtClass::from_machine(other) <==> class
            == other,
        class == TakeoverFaultClass::RegisterAccess <==> XhciDebtClass::from_machine(class).code()
            == 1,
        class == TakeoverFaultClass::Deadline <==> XhciDebtClass::from_machine(class).code() == 2,
        class == TakeoverFaultClass::Timeout <==> XhciDebtClass::from_machine(class).code() == 3,
        class == TakeoverFaultClass::HostControllerError <==> XhciDebtClass::from_machine(
            class,
        ).code() == 4,
        class == TakeoverFaultClass::IllegalControllerState <==> XhciDebtClass::from_machine(
            class,
        ).code() == 5,
        class == TakeoverFaultClass::ReadyHaltedInvariant <==> XhciDebtClass::from_machine(
            class,
        ).code() == 6,
        class == TakeoverFaultClass::MeasuredApertureRequired <==> XhciDebtClass::from_machine(
            class,
        ).code() == 7,
{
}

/// The class of a failed activation tells where it failed: 1 to 8 in the
/// takeover machine, 9 in configuration space, 10 at the aperture, 11 at
/// retention, 12 when steps ran out and 13 at the protocols.
pub proof fn law_a_failure_is_classed_by_its_place<E, P>(failure: XhciActivationFailure<E, P>)
    ensures
        failure.error matches XhciActivationError::Machine { phase: _, class }
            ==> failure.debt_class() == XhciDebtClass::from_machine(class),
        failure.error is Pci || failure.error is InvalidPciEvidence <==> failure.debt_class().code()
            == 9,
        failure.error is ApertureBinding <==> failure.debt_class().code() == 10,
        failure.error is Retention <==> failure.debt_class().code() == 11,
        failure.error is StepCapacity <==> failure.debt_class().code() == 12,
        failure.error is Protocol <==> failure.debt_class().code() == 13,
        failure.error is InvalidTakeoverConfiguration ==> failure.debt_class().code() == 5,
{
}

/// Probe errors are numbered from 1 to 22, and only those with a detail carry
/// one: the length, version, offset or status that was found.
pub proof fn law_probe_errors_are_numbered(length: u8, version: u16, offset: u32, status: i32)
    ensures
        crate::xhci::probe_error_code(XhciProbeError::InvalidSecret) == (1u64, 0u64),
        crate::xhci::probe_error_code(XhciProbeError::InvalidAuthorizationRoot) == (2u64, 0u64),
        crate::xhci::probe_error_code(XhciProbeError::WrongClass) == (3u64, 0u64),
        crate::xhci::probe_error_code(XhciProbeError::EvidenceMismatch) == (4u64, 0u64),
        crate::xhci::probe_error_code(XhciProbeError::ConfigurationChanged) == (6u64, 0u64),
        crate::xhci::probe_error_code(XhciProbeError::IoBar) == (7u64, 0u64),
        crate::xhci::probe_error_code(XhciProbeError::UnsupportedBarEncoding) == (8u64, 0u64),
        crate::xhci::probe_error_code(XhciProbeError::MissingBar) == (9u64, 0u64),
        crate::xhci::probe_error_code(XhciProbeError::AddressOverflow) == (10u64, 0u64),
        crate::xhci::probe_error_code(XhciProbeError::InvalidCapabilityLength(length)) == (
            12u64,
            length as u64,
        ),
        crate::xhci::probe_error_code(XhciProbeError::UnsupportedInterfaceVersion(version)) == (
            13u64,
            version as u64,
        ),
        crate::xhci::probe_error_code(XhciProbeError::InvalidGeometry) == (14u64, 0u64),
        crate::xhci::probe_error_code(XhciProbeError::InvalidRegisterOffset) == (15u64, 0u64),
        crate::xhci::probe_error_code(XhciProbeError::InvalidBootstrapOffset(offset)) == (
            16u64,
            offset as u64,
        ),
        crate::xhci::probe_error_code(XhciProbeError::BootstrapCapabilityCapacity) == (17u64, 0u64),
        crate::xhci::probe_error_code(XhciProbeError::BootstrapCapabilityOverlap(offset)) == (
            18u64,
            offset as u64,
        ),
        crate::xhci::probe_error_code(XhciProbeError::Unmap(status)) == (
            19u64,
            (status as u32) as u64,
        ),
        crate::xhci::probe_error_code(XhciProbeError::Capacity) == (20u64, 0u64),
        crate::xhci::probe_error_code(XhciProbeError::DuplicateAddress) == (21u64, 0u64),
        crate::xhci::probe_error_code(XhciProbeError::AlreadyPublished) == (22u64, 0u64),
{
}

/// A register inside its boundary is found at the base plus its offset, and the
/// whole access ends before the boundary does.
pub proof fn law_a_bounded_register_is_base_plus_offset(
    physical_base: u64,
    containment_bytes: u64,
    offset: u32,
    length: usize,
)
    ensures
        crate::xhci::bounded_register(
            RegisterBoundary::Bootstrap { physical_base, containment_bytes },
            offset,
            length,
        ) matches Ok(physical) ==> physical - physical_base == offset && offset + length
            <= containment_bytes,
        offset + length <= containment_bytes && physical_base + offset <= u64::MAX
            ==> crate::xhci::bounded_register(
            RegisterBoundary::Bootstrap { physical_base, containment_bytes },
            offset,
            length,
        ) is Ok,
        containment_bytes < offset + length <= u64::MAX ==> crate::xhci::bounded_register(
            RegisterBoundary::Bootstrap { physical_base, containment_bytes },
            offset,
            length,
        ) == Err::<u64, _>(XhciRegisterError::OutsideBootstrapContainment),
{
}

/// The same within a measured aperture.
pub proof fn law_a_measured_register_is_base_plus_offset(
    aperture: Bar0ApertureLease,
    offset: u32,
    length: usize,
)
    ensures
        crate::xhci::bounded_register(
            RegisterBoundary::Measured(&aperture),
            offset,
            length,
        ) matches Ok(physical) ==> physical - aperture.physical_base == offset && 0 < length
            && offset + length <= aperture.length,
        0 < length && offset + length <= aperture.length && aperture.physical_base + offset
            <= u64::MAX ==> crate::xhci::bounded_register(
            RegisterBoundary::Measured(&aperture),
            offset,
            length,
        ) is Ok,
{
}

/// The takeover is configured from the snapshot: operational registers follow
/// the capability registers, legacy support is absent when its offset is zero,
/// and one mebibyte is the containment.
pub proof fn law_the_takeover_follows_the_snapshot(snapshot: XhciCapabilitySnapshot)
    ensures
        crate::xhci::takeover_config(snapshot).operational_offset == snapshot.capability_length,
        crate::xhci::takeover_config(snapshot).maximum_ports == snapshot.maximum_ports,
        crate::xhci::takeover_config(snapshot).bootstrap_containment_bytes == 1024 * 1024,
        snapshot.legacy_support_offset == 0 <==> crate::xhci::takeover_config(
            snapshot,
        ).legacy_support_offset is None,
        crate::xhci::takeover_config(snapshot).legacy_support_offset matches Some(offset) ==> offset
            == snapshot.legacy_support_offset,
{
}

/// Only functions of segment zero with a slot below 32 and a function below 8
/// can be measured, at their own bus, slot and function.
pub proof fn law_a_measured_function_keeps_its_address(address: DeviceAddress)
    ensures
        crate::xhci::probed_address(address) is Some <==> address.segment == 0 && address.slot < 32
            && address.function < 8,
        crate::xhci::probed_address(address) matches Some(legacy) ==> legacy.bus == address.bus
            && legacy.slot == address.slot && legacy.function == address.function,
{
}

/// The protocol walk runs under a secret of its own: the bits above the lowest
/// are those of the driver's secret turned left by seventeen, and it is never
/// even.
pub proof fn law_the_protocol_secret_is_turned(secret: u64)
    ensures
        crate::xhci::protocol_secret(secret) % 2 == 1,
        crate::xhci::protocol_secret(secret) / 2 == secret % 0x8000_0000_0000 * 0x1_0000 + secret
            / 0x8000_0000_0000 / 2,
{
    crate::bits::lemma_word64(secret);
    let low = secret % 0x8000_0000_0000;
    let high = secret / 0x8000_0000_0000;
    assert(crate::xhci::protocol_secret(secret) == 2 * (low * 0x1_0000 + high / 2) + 1);
}

/// A port of one kind counts for that kind and no other.
pub proof fn law_ports_are_counted_by_kind(
    protocols: Seq<SupportedProtocol>,
    protocol: SupportedProtocol,
    kind: UsbProtocolKind,
)
    ensures
        crate::xhci::port_total(Seq::empty(), kind) == 0,
        crate::xhci::port_total(protocols.push(protocol), kind) - crate::xhci::port_total(
            protocols,
            kind,
        ) == (if protocol.kind == kind {
            protocol.port_count as int
        } else {
            0
        }),
{
    assert(protocols.push(protocol).drop_last() =~= protocols);
}

/// One more controller adds its ports, slots, headers and legacy support to the
/// summary, as far as the counters reach, and leaves the number of controllers
/// that was announced.
pub proof fn law_a_controller_adds_to_the_summary(
    secret: u64,
    controllers: usize,
    entries: Seq<XhciCensusEntry>,
    entry: XhciCensusEntry,
)
    ensures
        ({
            let before = crate::xhci::summary_of(secret, controllers, entries);
            let after = crate::xhci::summary_of(secret, controllers, entries.push(entry));
            &&& after.controllers == controllers
            &&& before.total_ports + entry.snapshot.maximum_ports <= usize::MAX
                ==> after.total_ports - before.total_ports == entry.snapshot.maximum_ports
            &&& before.total_slots + entry.snapshot.maximum_device_slots <= usize::MAX
                ==> after.total_slots - before.total_slots == entry.snapshot.maximum_device_slots
            &&& before.bootstrap_headers + entry.snapshot.bootstrap_header_count <= usize::MAX
                ==> after.bootstrap_headers - before.bootstrap_headers
                == entry.snapshot.bootstrap_header_count
            &&& before.legacy_capable_controllers < usize::MAX ==> (
            after.legacy_capable_controllers == before.legacy_capable_controllers + 1 <==>
                entry.snapshot.legacy_support_offset != 0)
            &&& after.legacy_capable_controllers >= before.legacy_capable_controllers
            &&& entry.retained is None ==> after.reset_ready_controllers
                == before.reset_ready_controllers && after.mutation_debts == before.mutation_debts
                && after.measured_aperture_bytes == before.measured_aperture_bytes
                && after.usb2_ports == before.usb2_ports && after.usb3_ports == before.usb3_ports
                && after.supported_protocols == before.supported_protocols
            &&& entry.retained matches Some(RetainedController::MutationDebt(_)) ==> (
            before.mutation_debts < usize::MAX ==> after.mutation_debts == before.mutation_debts
                + 1) && after.reset_ready_controllers == before.reset_ready_controllers
            &&& entry.retained matches Some(RetainedController::ResetReady(controller)) ==> {
                &&& after.mutation_debts == before.mutation_debts
                &&& before.reset_ready_controllers < usize::MAX ==> after.reset_ready_controllers
                    == before.reset_ready_controllers + 1
                &&& before.measured_aperture_bytes + controller.aperture.length <= u64::MAX
                    ==> after.measured_aperture_bytes - before.measured_aperture_bytes
                    == controller.aperture.length
                &&& before.usb2_ports + crate::xhci::port_total(
                    controller.protocols.protocols@,
                    UsbProtocolKind::Usb2,
                ) <= usize::MAX ==> after.usb2_ports - before.usb2_ports == crate::xhci::port_total(
                    controller.protocols.protocols@,
                    UsbProtocolKind::Usb2,
                )
                &&& before.usb3_ports + crate::xhci::port_total(
                    controller.protocols.protocols@,
                    UsbProtocolKind::Usb3,
                ) <= usize::MAX ==> after.usb3_ports - before.usb3_ports == crate::xhci::port_total(
                    controller.protocols.protocols@,
                    UsbProtocolKind::Usb3,
                )
            }
        }),
        ({
            let none = crate::xhci::summary_of(secret, controllers, Seq::empty());
            none.total_ports == 0 && none.total_slots == 0 && none.bootstrap_headers == 0
                && none.legacy_capable_controllers == 0 && none.reset_ready_controllers == 0
                && none.mutation_debts == 0 && none.measured_aperture_bytes == 0
                && none.supported_protocols == 0 && none.usb2_ports == 0 && none.usb3_ports == 0
        }),
{
    assert(entries.push(entry).drop_last() =~= entries);
    lemma_the_announced_number_stays(secret, controllers, entries);
    lemma_port_total_is_positive(entry, UsbProtocolKind::Usb2);
    lemma_port_total_is_positive(entry, UsbProtocolKind::Usb3);
}

proof fn lemma_the_announced_number_stays(
    secret: u64,
    controllers: usize,
    entries: Seq<XhciCensusEntry>,
)
    ensures
        crate::xhci::summary_of(secret, controllers, entries).controllers == controllers,
    decreases entries.len(),
{
    if entries.len() > 0 {
        lemma_the_announced_number_stays(secret, controllers, entries.drop_last());
    }
}

proof fn lemma_port_total_is_positive(entry: XhciCensusEntry, kind: UsbProtocolKind)
    ensures
        entry.retained matches Some(RetainedController::ResetReady(controller))
            ==> crate::xhci::port_total(controller.protocols.protocols@, kind) >= 0,
{
    if let Some(RetainedController::ResetReady(controller)) = entry.retained {
        lemma_totals_are_positive(controller.protocols.protocols@, kind);
    }
}

proof fn lemma_totals_are_positive(protocols: Seq<SupportedProtocol>, kind: UsbProtocolKind)
    ensures
        crate::xhci::port_total(protocols, kind) >= 0,
    decreases protocols.len(),
{
    if protocols.len() > 0 {
        lemma_totals_are_positive(protocols.drop_last(), kind);
    }
}

/// A search by address stops at the first entry with that address.
pub proof fn law_a_search_finds_the_first(
    entries: Seq<XhciCensusEntry>,
    address: DeviceAddress,
    from: int,
)
    requires
        0 <= from <= entries.len(),
    ensures
        crate::xhci::place_of(entries, address, from) matches Some(place) ==> from <= place
            < entries.len() && entries[place].snapshot.address == address && forall|i: int|
            from <= i < place ==> (#[trigger] entries[i]).snapshot.address != address,
        crate::xhci::place_of(entries, address, from) is None <==> forall|i: int|
            from <= i < entries.len() ==> (#[trigger] entries[i]).snapshot.address != address,
    decreases entries.len() - from,
{
    if from < entries.len() && entries[from].snapshot.address != address {
        law_a_search_finds_the_first(entries, address, from + 1);
    }
}

/// A register access opens as many bytes as it moves, one or four, makes
/// itself once and closes; its word counts only if the window closed well.
pub proof fn law_an_access_is_one_window(
    physical: u64,
    access: RegisterAccess,
    log: Seq<MmioEvent>,
    at: int,
    result: Result<u32, MmioFault>,
    end: int,
)
    requires
        crate::mmio::access_run(physical, access, log, at) == Some((result, end)),
    ensures
        0 <= at < end <= log.len(),
        log[at] matches MmioEvent::Open { physical: base, length, mapped } && base == physical
            && length == (match access {
            RegisterAccess::Read8 => 1int,
            RegisterAccess::Write8(_) => 1,
            RegisterAccess::Read32 => 4,
            RegisterAccess::Write32(_) => 4,
        }) && (mapped is Some <==> end == at + 1),
        end == at + 1 || end == at + 3,
        end == at + 3 ==> (log[at + 1] matches MmioEvent::Access { access: made, reply } && made
            == access && (log[at + 2] matches MmioEvent::Close(status) && (status != 0 ==> result
            == Err::<u32, _>(MmioFault::Unmap(status))) && (status == 0 ==> match reply {
            Ok(word) => result == Ok::<_, MmioFault>(word),
            Err(error) => result == Err::<u32, _>(MmioFault::Access(error)),
        }))),
        log[at] matches MmioEvent::Open { mapped: Some(error), .. } ==> result == Err::<u32, _>(
            MmioFault::Access(error),
        ),
{
}

/// A kept controller agrees with what was measured: same function, same base,
/// same length, protocols of the same aperture, offset and ports, and a root
/// that is not zero.
pub proof fn law_a_kept_controller_agrees(
    bootstrap: XhciBootstrap,
    aperture: Bar0ApertureLease,
    ready: ReadyHalted,
    protocols: ProtocolFindings,
    secret: u64,
    root: u64,
)
    requires
        crate::xhci::retained_controller(bootstrap, aperture, ready, protocols, secret) == Ok::<
            _,
            XhciRetentionError,
        >(root),
    ensures
        root != 0,
        secret != 0,
        bootstrap.snapshot.address.segment == 0,
        aperture.address.bus == bootstrap.snapshot.address.bus,
        aperture.address.slot == bootstrap.snapshot.address.slot,
        aperture.address.function == bootstrap.snapshot.address.function,
        aperture.physical_base == bootstrap.snapshot.mmio_base,
        aperture.length == ready.measured_aperture_bytes,
        aperture.length >= 0x20,
        bootstrap.snapshot.doorbell_offset + 4 <= aperture.length,
        bootstrap.snapshot.runtime_offset + 0x20 <= aperture.length,
        protocols.aperture_base == aperture.physical_base,
        protocols.aperture_bytes == aperture.length,
        protocols.initial_offset == bootstrap.snapshot.extended_capabilities_offset,
        protocols.maximum_ports == bootstrap.snapshot.maximum_ports,
        protocols.root != 0,
        bootstrap.authorization.address_of() == bootstrap.snapshot.address,
        bootstrap.authorization.evidence_root_of() == bootstrap.snapshot.evidence_root,
        bootstrap.authorization.root_of() == bootstrap.snapshot.binding_root,
        forall|i: int|
            #![trigger bootstrap.journal.ranges@[i]]
            0 <= i < bootstrap.journal.ranges@.len() ==> bootstrap.journal.ranges@[i].offset
                + bootstrap.journal.ranges@[i].length <= aperture.length,
{
    lemma_ranges_fit(aperture, bootstrap.journal.ranges@, 0);
}

proof fn lemma_ranges_fit(aperture: Bar0ApertureLease, ranges: Seq<BootstrapRange>, index: int)
    requires
        0 <= index <= ranges.len(),
        crate::xhci::ranges_fault(aperture, ranges, index) is None,
    ensures
        forall|i: int|
            #![trigger ranges[i]]
            index <= i < ranges.len() ==> ranges[i].offset + ranges[i].length <= aperture.length,
    decreases ranges.len() - index,
{
    if index < ranges.len() {
        lemma_ranges_fit(aperture, ranges, index + 1);
    }
}

/// Only the evidence that was authorized, of a serial bus controller of kind
/// USB with the xHCI interface, is probed, and only under a secret.
pub proof fn law_only_authorized_controllers_are_probed(
    authorization: crate::device_census::BindingAuthorization,
    evidence: PciFunctionEvidence,
    secret: u64,
)
    ensures
        crate::xhci::identity_fault(authorization, evidence, secret) is None <==> secret != 0
            && evidence.address == authorization.address_of() && evidence.evidence_root
            == authorization.evidence_root_of() && evidence.class_code == 0x0c && evidence.subclass
            == 0x03 && evidence.programming_interface == 0x30,
        secret == 0 <==> crate::xhci::identity_fault(authorization, evidence, secret) == Some(
            XhciProbeError::InvalidSecret,
        ),
{
}

/// The device to measure is the one in evidence, field by field.
pub proof fn law_the_measured_device_is_the_one_in_evidence(
    address: PciAddress,
    evidence: PciFunctionEvidence,
)
    ensures
        ({
            let device = crate::xhci::expected_device(address, evidence);
            &&& device.address == address
            &&& device.device_id * 0x1_0000 + device.vendor_id == evidence.device_id * 0x1_0000
                + evidence.vendor_id
            &&& device.class_code == evidence.class_code
            &&& device.subclass == evidence.subclass
            &&& device.programming_interface == evidence.programming_interface
            &&& device.revision == evidence.revision
            &&& device.header_type == evidence.header_type
            &&& device.interrupt_line == evidence.interrupt_line
            &&& device.interrupt_pin == evidence.interrupt_pin
            &&& device.command == evidence.command
            &&& device.bar_count == evidence.bar_count
            &&& device.raw_bars == evidence.raw_bars
        }),
{
}

} // verus!
