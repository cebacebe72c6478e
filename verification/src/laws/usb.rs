//! Laws of ports, protocols and bindings of a host controller.

use vstd::prelude::*;

use crate::pci::Bar0ApertureLease;
use crate::xhci_dma::XhciDmaPurpose;
use crate::xhci_dma::XhciDmaRegionPhase;
use crate::xhci_dma::XhciDmaRegionRecord;
use crate::xhci_iommu::DmaMappingHandle;
use crate::xhci_iommu::DomainEvent;
use crate::xhci_ports::PortRead;
use crate::xhci_ports::SurveySubject;
use crate::xhci_ports::XhciPortObservation;
use crate::xhci_ports::XhciPortProtocol;
use crate::xhci_ports::XhciPortSurveyError;
use crate::xhci_protocol::DwordRead;
use crate::xhci_protocol::ProtocolBody;
use crate::xhci_protocol::SupportedProtocol;
use crate::xhci_protocol::SupportedProtocolError;
use crate::xhci_protocol::UsbProtocolKind;

verus! {

proof fn lemma_usb_bits(word: u32, peer: u32, major: u8, minor: u8)
    by (bit_vector)
    ensures
        word & 1 == word % 2,
        word & 2 == word / 2 % 2 * 2,
        word & 4 == word / 4 % 2 * 4,
        word & 8 == word / 8 % 2 * 8,
        word & 0x10 == word / 16 % 2 * 16,
        ((word & 0x01e0) >> 5) as u8 == word / 32 % 16,
        ((word & 0x3c00) >> 10) as u8 == word / 1024 % 16,
        (word & 0x0f) as u8 == word % 16,
        (word >> 6) & 0x03 == word / 64 % 4,
        ((word >> 28) & 0x0f) as u8 == word / 0x1000_0000,
        ((word >> 16) & 0x0fff) as u16 == word / 0x1_0000 % 0x1000,
        (word & 0x1f) as u8 == word % 32,
        ((word >> 8) & 0xff) as u8 == word / 0x100 % 0x100,
        word & !0xcf == peer & !0xcf <==> word / 0x100 == peer / 0x100 && word / 16 % 4 == peer / 16
            % 4,
        ((major as u16) << 8u16) | (minor as u16) == major * 0x100 + minor,
{
}

/// A port is observed by the bits of its status word: connected is bit 0,
/// enabled bit 1, overcurrent bit 3, reset bit 4, the link state bits 5 to 8 and
/// the speed bits 10 to 13.
pub proof fn law_a_port_is_observed_by_its_bits(
    port_id: u8,
    protocol: XhciPortProtocol,
    portsc: u32,
)
    ensures
        ({
            let port = crate::xhci_ports::observe_port(port_id, protocol, portsc);
            &&& port.port_id == port_id
            &&& port.protocol == protocol
            &&& port.connected <==> portsc % 2 == 1
            &&& port.enabled <==> portsc / 2 % 2 == 1
            &&& port.overcurrent <==> portsc / 8 % 2 == 1
            &&& port.reset_active <==> portsc / 16 % 2 == 1
            &&& port.link_state == portsc / 32 % 16
            &&& port.speed_id == portsc / 1024 % 16
            &&& port.portsc == portsc
        }),
{
    lemma_usb_bits(portsc, 0, 0, 0);
}

/// Port status words lie 16 bytes apart, from 0x400 behind the operational
/// registers on.
pub proof fn law_port_words_lie_sixteen_bytes_apart(operational_offset: u8, port_id: u8)
    requires
        port_id >= 1,
    ensures
        crate::xhci_ports::portsc_offset(operational_offset, 1) == operational_offset + 0x400,
        port_id < 255 ==> crate::xhci_ports::portsc_offset(operational_offset, (port_id + 1) as u8)
            - crate::xhci_ports::portsc_offset(operational_offset, port_id) == 16,
{
}

/// A protocol with ports counts them from its first one.
pub proof fn law_a_protocol_counts_its_ports(protocol: SupportedProtocol, port_id: u8)
    requires
        protocol.port_count >= 1,
    ensures
        crate::xhci_ports::port_in_range(protocol, port_id) <==> protocol.first_port <= port_id
            < protocol.first_port + protocol.port_count,
        crate::xhci_ports::port_in_range(protocol, port_id) <==> protocol.covers(port_id as int),
{
}

/// A port has the protocol of the first capability that covers it.
pub proof fn law_a_port_has_the_first_protocol_that_covers_it(
    protocols: Seq<SupportedProtocol>,
    port_id: u8,
    from: int,
)
    requires
        0 <= from <= protocols.len(),
    ensures
        ({
            let found = crate::xhci_ports::protocol_of_port(protocols, port_id, from);
            &&& found is Unclassified <==> forall|i: int|
                from <= i < protocols.len() ==> !crate::xhci_ports::port_in_range(
                    #[trigger] protocols[i],
                    port_id,
                )
            &&& !(found is Unclassified) ==> exists|i: int|
                from <= i < protocols.len() && crate::xhci_ports::port_in_range(
                    #[trigger] protocols[i],
                    port_id,
                ) && (found is Usb2 <==> protocols[i].kind is Usb2) && (found is Usb3
                    <==> protocols[i].kind is Usb3)
        }),
    decreases protocols.len() - from,
{
    if from < protocols.len() {
        if crate::xhci_ports::port_in_range(protocols[from], port_id) {
            assert(crate::xhci_ports::port_in_range(protocols[from], port_id));
        } else {
            law_a_port_has_the_first_protocol_that_covers_it(protocols, port_id, from + 1);
            let found = crate::xhci_ports::protocol_of_port(protocols, port_id, from);
            if !(found is Unclassified) {
                let i = choose|i: int|
                    from + 1 <= i < protocols.len() && crate::xhci_ports::port_in_range(
                        #[trigger] protocols[i],
                        port_id,
                    ) && (found is Usb2 <==> protocols[i].kind is Usb2) && (found is Usb3
                        <==> protocols[i].kind is Usb3);
                assert(crate::xhci_ports::port_in_range(protocols[i], port_id));
            }
        }
    }
}

proof fn lemma_ports_are_read<E>(
    subject: SurveySubject,
    observed: Seq<XhciPortObservation>,
    log: Seq<PortRead<E>>,
    at: int,
    ended: Seq<XhciPortObservation>,
    end: int,
)
    requires
        observed.len() <= subject.maximum_ports,
        crate::xhci_ports::ports_run(subject, observed, log, at) == Some(
            (Ok::<_, XhciPortSurveyError<E>>(ended), end),
        ),
    ensures
        ended.len() == subject.maximum_ports,
        end == at + subject.maximum_ports - observed.len(),
        forall|i: int| 0 <= i < observed.len() ==> (#[trigger] ended[i]) == observed[i],
        forall|i: int|
            #![trigger ended[i]]
            observed.len() <= i < ended.len() ==> ended[i].port_id == i + 1 && log[at + i
                - observed.len()].offset == subject.operational_offset + 0x400 + 16 * i && log[at
                + i - observed.len()].reply == Ok::<u32, E>(ended[i].portsc) && (ended[i].connected
                <==> ended[i].portsc % 2 == 1),
    decreases subject.maximum_ports - observed.len(),
{
    if observed.len() < subject.maximum_ports {
        let port_id = (observed.len() + 1) as u8;
        let offset = crate::xhci_ports::portsc_offset(subject.operational_offset, port_id);
        let portsc = crate::xhci_ports::port_read_at(log, at, offset)->0->Ok_0;
        let protocol = crate::xhci_ports::protocol_of_port(subject.protocols, port_id, 0);
        let port = crate::xhci_ports::observe_port(port_id, protocol, portsc);
        law_a_port_is_observed_by_its_bits(port_id, protocol, portsc);
        lemma_ports_are_read(subject, observed.push(port), log, at + 1, ended, end);
        assert(ended[observed.len() as int] == observed.push(port)[observed.len() as int]);
        assert forall|i: int| 0 <= i < observed.len() implies (#[trigger] ended[i])
            == observed[i] by {
            assert(observed.push(port)[i] == observed[i]);
        }
        assert forall|i: int|
            #![trigger ended[i]]
            observed.len() <= i < ended.len() implies ended[i].port_id == i + 1 && log[at + i
            - observed.len()].offset == subject.operational_offset + 0x400 + 16 * i && log[at + i
            - observed.len()].reply == Ok::<u32, E>(ended[i].portsc) && (ended[i].connected
            <==> ended[i].portsc % 2 == 1) by {
            if i > observed.len() {
                assert(at + 1 + i - observed.push(port).len() == at + i - observed.len());
            }
        }
    }
}

/// A survey reads command and status, then every port once in order, and only of
/// a controller that is stopped, halted and free of error.
pub proof fn law_a_survey_reads_every_port_once<E>(
    subject: SurveySubject,
    secret: u64,
    log: Seq<PortRead<E>>,
    at: int,
    observed: Seq<XhciPortObservation>,
    end: int,
)
    requires
        crate::xhci_ports::survey_run(subject, secret, log, at) == Some(
            (Ok::<_, XhciPortSurveyError<E>>(observed), end),
        ),
    ensures
        secret != 0,
        observed.len() == subject.maximum_ports,
        end == at + 2 + subject.maximum_ports,
        log[at].offset == subject.operational_offset,
        log[at].reply matches Ok(command) && command % 2 == 0,
        log[at + 1].offset == subject.operational_offset + 4,
        log[at + 1].reply matches Ok(status) && status % 2 == 1 && status / 4 % 2 == 0,
        forall|i: int|
            #![trigger observed[i]]
            0 <= i < observed.len() ==> observed[i].port_id == i + 1 && log[at + 2 + i].offset
                == subject.operational_offset + 0x400 + 16 * i && log[at + 2 + i].reply == Ok::<
                u32,
                E,
            >(observed[i].portsc),
{
    lemma_usb_bits(log[at].reply->Ok_0, 0, 0, 0);
    lemma_usb_bits(log[at + 1].reply->Ok_0, 0, 0, 0);
    lemma_ports_are_read(subject, Seq::empty(), log, at + 2, observed, end);
    assert forall|i: int|
        #![trigger observed[i]]
        0 <= i < observed.len() implies observed[i].port_id == i + 1 && log[at + 2 + i].offset
        == subject.operational_offset + 0x400 + 16 * i && log[at + 2 + i].reply == Ok::<u32, E>(
        observed[i].portsc,
    ) by {
        assert(at + 2 + i == at + 2 + i - Seq::<XhciPortObservation>::empty().len());
    }
}

/// One more port counts once where it has the property and not where it has not.
pub proof fn law_ports_are_counted_by_property(
    observed: Seq<XhciPortObservation>,
    port: XhciPortObservation,
    property: spec_fn(XhciPortObservation) -> bool,
)
    ensures
        crate::xhci_ports::count_of(observed.push(port), property) - crate::xhci_ports::count_of(
            observed,
            property,
        ) == (if property(port) {
            1int
        } else {
            0
        }),
        crate::xhci_ports::count_of(Seq::empty(), property) == 0,
{
    assert(observed.push(port).drop_last() =~= observed);
}

/// A capability lies at a multiple of four from 0x20 on and ends inside its
/// aperture.
pub proof fn law_capabilities_lie_inside_the_aperture<E>(offset: u32, aperture_bytes: u64)
    ensures
        crate::xhci_protocol::validate_capability_offset::<E>(offset, aperture_bytes) is Ok <==>
            offset >= 0x20 && offset % 4 == 0 && offset + 4 <= aperture_bytes,
{
    crate::bits::lemma_word32(offset);
}

/// The next capability lies four times its count ahead, and a count of zero ends
/// the list.
pub proof fn law_the_next_capability_is_counted_in_words<E>(
    current: u32,
    next_dwords: u8,
    aperture_bytes: u64,
)
    ensures
        next_dwords == 0 <==> crate::xhci_protocol::relative_next::<E>(
            current,
            next_dwords,
            aperture_bytes,
        ) == Ok::<Option<u32>, SupportedProtocolError<E>>(None),
        crate::xhci_protocol::relative_next::<E>(current, next_dwords, aperture_bytes) matches Ok(
            Some(next),
        ) ==> next - current == 4 * next_dwords && next % 4 == 0 && next + 4 <= aperture_bytes,
{
    if current + next_dwords * 4 <= u32::MAX {
        law_capabilities_lie_inside_the_aperture::<E>(
            (current + next_dwords * 4) as u32,
            aperture_bytes,
        );
    }
}

/// The body of a protocol capability lies 4, 8 and 12 bytes behind its header.
pub proof fn law_a_body_follows_its_header<E>(offset: u32, aperture_bytes: u64)
    ensures
        crate::xhci_protocol::body_offsets::<E>(offset, aperture_bytes) matches Ok(places)
            ==> places.0 - offset == 4 && places.1 - offset == 8 && places.2 - offset == 12
            && offset + 16 <= aperture_bytes,
        offset + 16 <= aperture_bytes && offset + 12 <= u32::MAX
            ==> crate::xhci_protocol::body_offsets::<E>(offset, aperture_bytes) is Ok,
{
}

/// A word of a capability is read through the aperture, at its offset behind the
/// base.
pub proof fn law_a_capability_word_is_read_at_its_offset<E>(
    aperture: Bar0ApertureLease,
    offset: u32,
    log: Seq<DwordRead<E>>,
    at: int,
    word: u32,
    end: int,
)
    requires
        crate::xhci_protocol::dword_run(aperture, offset, log, at) == Some(
            (Ok::<_, SupportedProtocolError<E>>(word), end),
        ),
    ensures
        end == at + 1,
        0 <= at < log.len(),
        log[at].range.physical_address == aperture.physical_base + offset,
        log[at].range.length == 4,
        offset + 4 <= aperture.length,
        log[at].reply == Ok::<u32, E>(word),
{
}

/// Only the name "USB " is known, with revision 2.0, 3.0, 3.1 or 3.2 in packed
/// decimal, and the major revision is the kind.
pub proof fn law_which_protocols_are_known<E>(offset: u32, name: u32, major: u8, minor: u8)
    ensures
        crate::xhci_protocol::protocol_kind::<E>(offset, name, major, minor) == Ok::<
            _,
            SupportedProtocolError<E>,
        >(UsbProtocolKind::Usb2) <==> name == 0x2042_5355 && major == 2 && minor == 0,
        crate::xhci_protocol::protocol_kind::<E>(offset, name, major, minor) == Ok::<
            _,
            SupportedProtocolError<E>,
        >(UsbProtocolKind::Usb3) <==> name == 0x2042_5355 && major == 3 && (minor == 0 || minor
            == 0x10 || minor == 0x20),
        crate::xhci_protocol::is_packed_bcd_byte(major) <==> major % 16 <= 9 && major / 16 <= 9,
        UsbProtocolKind::Usb2.code() == 2,
        UsbProtocolKind::Usb3.code() == 3,
{
    crate::bits::lemma_byte(major);
    crate::bits::lemma_byte(minor);
}

/// Ports are numbered from one and none lies beyond the last.
pub proof fn law_port_ranges_start_at_one<E>(
    offset: u32,
    first_port: u8,
    port_count: u8,
    maximum_ports: u8,
)
    ensures
        crate::xhci_protocol::validate_port_range::<E>(
            offset,
            first_port,
            port_count,
            maximum_ports,
        ) is Ok <==> first_port >= 1 && port_count >= 1 && first_port + port_count <= maximum_ports
            + 1,
{
}

/// A body of sixteen bytes and four for each speed ends inside the aperture and
/// before the next capability.
pub proof fn law_a_body_ends_before_the_next_capability<E>(
    offset: u32,
    speed_count: u8,
    next: Option<u32>,
    aperture_bytes: u64,
)
    ensures
        crate::xhci_protocol::validate_body::<E>(offset, speed_count, next, aperture_bytes) is Ok
            <==> {
            let end = offset + 16 + 4 * speed_count;
            &&& end <= aperture_bytes
            &&& end <= u32::MAX
            &&& next matches Some(register) ==> end <= register
        },
{
}

/// A speed word has its identifier in its lowest four bits and its direction in
/// bits 6 and 7; a pair of one-way speeds agrees on everything but those.
pub proof fn law_speed_words_have_identifier_and_direction(speed: u32, peer: u32)
    ensures
        crate::xhci_protocol::speed_id_of(speed) == speed % 16,
        crate::xhci_protocol::speed_type_of(speed) == speed / 64 % 4,
        crate::xhci_protocol::pairs_with(speed, peer) <==> peer / 64 % 4 == 3 && peer / 256 == speed
            / 256 && peer / 16 % 4 == speed / 16 % 4,
{
    lemma_usb_bits(speed, peer, 0, 0);
    lemma_usb_bits(peer, speed, 0, 0);
}

/// A list of speeds without fault has identifiers that are not zero, no two
/// alike, and no reserved direction.
pub proof fn law_sound_speeds_have_distinct_identifiers<E>(
    speeds: Seq<u32>,
    offset: u32,
    speed: u32,
)
    ensures
        crate::xhci_protocol::speed_fault::<E>(speeds, offset, speed) is None <==> speed % 16 != 0
            && speed / 64 % 4 != 1 && forall|i: int|
            0 <= i < speeds.len() ==> (#[trigger] speeds[i]) % 16 != speed % 16,
{
    law_speed_words_have_identifier_and_direction(speed, 0);
    assert forall|i: int| 0 <= i < speeds.len() implies crate::xhci_protocol::speed_id_of(
        #[trigger] speeds[i],
    ) == speeds[i] % 16 by {
        law_speed_words_have_identifier_and_direction(speeds[i], 0);
    }
    if crate::xhci_protocol::speed_id_taken(speeds, crate::xhci_protocol::speed_id_of(speed)) {
        let i = choose|i: int|
            0 <= i < speeds.len() && crate::xhci_protocol::speed_id_of(#[trigger] speeds[i])
                == crate::xhci_protocol::speed_id_of(speed);
        assert(speeds[i] % 16 == speed % 16);
    } else {
        assert forall|i: int| 0 <= i < speeds.len() implies (#[trigger] speeds[i]) % 16 != speed
            % 16 by {
            assert(crate::xhci_protocol::speed_id_of(speeds[i]) == speeds[i] % 16);
        }
    }
}

/// In a list of speeds where all are paired, a receiving speed is followed by its
/// transmitting one, and no transmitting one stands alone.
pub proof fn law_one_way_speeds_come_in_pairs(speeds: Seq<u32>, index: int)
    requires
        0 <= index <= speeds.len(),
        crate::xhci_protocol::unpaired_from(speeds, index) is None,
    ensures
        forall|i: int|
            #![trigger speeds[i]]
            index <= i < speeds.len() && speeds[i] / 64 % 4 == 2 ==> i + 1 < speeds.len()
                && speeds[i + 1] / 64 % 4 == 3 && speeds[i + 1] / 256 == speeds[i] / 256,
        forall|i: int|
            #![trigger speeds[i]]
            index <= i < speeds.len() && speeds[i] / 64 % 4 == 3 ==> i > index && speeds[i - 1] / 64
                % 4 == 2,
    decreases speeds.len() - index,
{
    if index < speeds.len() {
        law_speed_words_have_identifier_and_direction(speeds[index], 0);
        if speeds[index] / 64 % 4 == 2 {
            law_speed_words_have_identifier_and_direction(speeds[index], speeds[index + 1]);
            law_one_way_speeds_come_in_pairs(speeds, index + 2);
        } else {
            law_one_way_speeds_come_in_pairs(speeds, index + 1);
        }
    }
}

/// Speed words follow the sixteen bytes of the body, four bytes apart.
pub proof fn law_speed_words_follow_the_body(offset: u32, index: int)
    requires
        0 <= index < 15,
        offset + 16 + 4 * index <= u32::MAX,
    ensures
        crate::xhci_protocol::speed_offset(offset, index) == offset + 16 + 4 * index,
{
}

/// A protocol is what its words say: the revision is the upper half of the
/// header, first port and count are the low bytes of the ports word, then
/// twelve defined bits and four of the speed count, and the slot type is the low
/// five bits of the slot word.
pub proof fn law_a_protocol_is_its_words(
    body: ProtocolBody,
    kind: UsbProtocolKind,
    speeds: Seq<u32>,
    secret: u64,
)
    ensures
        ({
            let protocol = body.protocol(kind, speeds, secret);
            &&& protocol.capability_offset == body.offset
            &&& protocol.next_capability_offset == body.next
            &&& protocol.kind == kind
            &&& protocol.revision_bcd == body.header / 0x1_0000
            &&& protocol.first_port == body.ports % 0x100
            &&& protocol.port_count == body.ports / 0x100 % 0x100
            &&& protocol.protocol_defined == body.ports / 0x1_0000 % 0x1000
            &&& protocol.protocol_speed_id_count == body.ports / 0x1000_0000
            &&& protocol.protocol_slot_type == body.slot % 32
        }),
{
    let (major, minor) = ((body.header >> 24) as u8, (body.header >> 16) as u8);
    assert(major * 0x100 + minor == body.header / 0x1_0000) by {
        crate::bits::lemma_parts(
            body.header,
            major,
            minor,
            (body.header >> 8) as u8,
            body.header as u8,
            0,
            0,
        );
    }
    lemma_usb_bits(body.ports, 0, major, minor);
    lemma_usb_bits(body.slot, 0, 0, 0);
    assert(body.ports as u8 == body.ports % 0x100 && (body.ports >> 8) as u8 == body.ports / 0x100
        % 0x100) by {
        crate::bits::lemma_word32(body.ports);
    }
}

/// A port is covered by at most the first capability found for it.
pub proof fn law_the_first_covering_capability_is_found(
    protocols: Seq<SupportedProtocol>,
    port: int,
    from: int,
)
    requires
        0 <= from <= protocols.len(),
    ensures
        crate::xhci_protocol::covering(protocols, port, from) matches Some(place) ==> from <= place
            < protocols.len() && protocols[place].first_port <= port < protocols[place].first_port
            + protocols[place].port_count,
        crate::xhci_protocol::covering(protocols, port, from) is None <==> forall|i: int|
            from <= i < protocols.len() ==> !((#[trigger] protocols[i]).first_port <= port
                < protocols[i].first_port + protocols[i].port_count),
    decreases protocols.len() - from,
{
    if from < protocols.len() && !protocols[from].covers(port) {
        law_the_first_covering_capability_is_found(protocols, port, from + 1);
    }
}

/// A protocol is taken in only where none of its ports is covered yet.
pub proof fn law_no_port_is_covered_twice<E>(
    protocols: Seq<SupportedProtocol>,
    protocol: SupportedProtocol,
    port: int,
    other: int,
)
    requires
        crate::xhci_protocol::overlap_from::<E>(protocols, protocol, port) is None,
        port <= other < protocol.first_port + protocol.port_count,
    ensures
        forall|i: int|
            0 <= i < protocols.len() ==> !((#[trigger] protocols[i]).first_port <= other
                < protocols[i].first_port + protocols[i].port_count),
    decreases other - port,
{
    law_the_first_covering_capability_is_found(protocols, port, 0);
    if port < other {
        law_no_port_is_covered_twice::<E>(protocols, protocol, port + 1, other);
    }
}

/// A region can be bound when it is ready, of the generation asked for, whole
/// pages at aligned addresses and not empty.
pub proof fn law_which_regions_can_be_bound(
    record: XhciDmaRegionRecord,
    purpose: XhciDmaPurpose,
    generation: u32,
)
    ensures
        crate::xhci_iommu::ready_region(record, purpose, generation) is Ok <==> record.phase
            == XhciDmaRegionPhase::Ready && record.generation == generation && record.page_count
            >= 1 && record.page_count * 4096 <= usize::MAX && record.device_address_start % 4096
            == 0 && record.physical_start % 4096 == 0,
        crate::xhci_iommu::ready_region(record, purpose, generation) matches Ok(kept) ==> kept
            == record,
{
}

/// Every region that is bound is mapped once, from its device address to its
/// physical address over all its pages, for reading and writing.
pub proof fn law_bound_regions_are_mapped_whole(
    records: Seq<Option<XhciDmaRegionRecord>>,
    index: int,
    mappings: Seq<Option<DmaMappingHandle>>,
    log: Seq<DomainEvent>,
    at: int,
    held: Seq<Option<DmaMappingHandle>>,
    end: int,
)
    requires
        0 <= index <= records.len(),
        mappings.len() == records.len(),
        crate::xhci_iommu::map_run(records, index, mappings, log, at) == Some(
            (held, None::<i32>, end),
        ),
    ensures
        held.len() == records.len(),
        end >= at,
        forall|i: int| 0 <= i < index ==> (#[trigger] held[i]) == mappings[i],
        forall|i: int|
            #![trigger held[i]]
            index <= i < records.len() ==> if records[i] is None {
                held[i] == mappings[i]
            } else {
                exists|k: int|
                    at <= k < end && #[trigger] log[k] is Bind && log[k]->device_address
                        == records[i]->0.device_address_start && log[k]->physical_address
                        == records[i]->0.physical_start && log[k]->length
                        == records[i]->0.page_count * 4096 && log[k]->access.read
                        && log[k]->access.write && held[i] is Some && log[k]->reply == Ok::<_, i32>(
                        held[i]->0,
                    )
            },
    decreases records.len() - index,
{
    if index < records.len() {
        if records[index] is None {
            law_bound_regions_are_mapped_whole(
                records,
                index + 1,
                mappings,
                log,
                at,
                held,
                end,
            );
            assert(held[index] == mappings[index]);
        } else {
            let mapping = log[at]->reply->Ok_0;
            let grown = mappings.update(index, Some(mapping));
            law_bound_regions_are_mapped_whole(
                records,
                index + 1,
                grown,
                log,
                at + 1,
                held,
                end,
            );
            assert(held[index] == grown[index]);
            assert(log[at] is Bind);
            assert forall|i: int| 0 <= i < index implies (#[trigger] held[i]) == mappings[i] by {
                assert(held[i] == grown[i]);
            }
        }
    }
}

/// Revoking that succeeds leaves no mapping, and revoked each that was held.
pub proof fn law_revoking_leaves_nothing_mapped(
    mappings: Seq<Option<DmaMappingHandle>>,
    index: int,
    log: Seq<DomainEvent>,
    at: int,
    left: Seq<Option<DmaMappingHandle>>,
    end: int,
)
    requires
        0 <= index <= mappings.len(),
        crate::xhci_iommu::revoke_run(mappings, index, log, at) == Some((left, None::<i32>, end)),
    ensures
        left.len() == mappings.len(),
        end >= at,
        forall|i: int| index <= i < mappings.len() ==> (#[trigger] left[i]) is None,
        forall|i: int| 0 <= i < index ==> (#[trigger] left[i]) == mappings[i],
        forall|i: int|
            #![trigger mappings[i]]
            index <= i < mappings.len() && mappings[i] is Some ==> exists|k: int|
                at <= k < end && #[trigger] log[k] == (DomainEvent::Revoke {
                    mapping: mappings[i]->0,
                    status: 0,
                }),
    decreases mappings.len() - index,
{
    if index < mappings.len() {
        if mappings[index] is None {
            law_revoking_leaves_nothing_mapped(mappings, index + 1, log, at, left, end);
            assert(left[index] == mappings[index]);
        } else {
            let rest = mappings.update(index, None);
            law_revoking_leaves_nothing_mapped(rest, index + 1, log, at + 1, left, end);
            assert(left[index] == rest[index]);
            assert(log[at] == (DomainEvent::Revoke { mapping: mappings[index]->0, status: 0 }));
            assert forall|i: int|
                #![trigger mappings[i]]
                index <= i < mappings.len() && mappings[i] is Some implies exists|k: int|
                at <= k < end && #[trigger] log[k] == (DomainEvent::Revoke {
                    mapping: mappings[i]->0,
                    status: 0,
                }) by {
                if i > index {
                    assert(rest[i] == mappings[i]);
                }
            }
            assert forall|i: int| 0 <= i < index implies (#[trigger] left[i]) == mappings[i] by {
                assert(left[i] == rest[i]);
            }
        }
    }
}

/// A held mapping counts once.
pub proof fn law_held_mappings_are_counted(
    mappings: Seq<Option<DmaMappingHandle>>,
    mapping: Option<DmaMappingHandle>,
)
    ensures
        crate::xhci_iommu::held_count(mappings.push(mapping)) - crate::xhci_iommu::held_count(
            mappings,
        ) == (if mapping is Some {
            1int
        } else {
            0
        }),
        crate::xhci_iommu::held_count(Seq::empty()) == 0,
{
    assert(mappings.push(mapping).drop_last() =~= mappings);
}

/// The scratchpad array and its buffers are bound together or not at all.
pub proof fn law_scratchpads_come_together(
    array: Option<XhciDmaRegionRecord>,
    buffers: Option<XhciDmaRegionRecord>,
    generation: u32,
)
    ensures
        crate::xhci_iommu::scratchpad_pair(array, buffers, generation) matches Ok(pair)
            ==> pair.len() == 2 && pair[0] == array && pair[1] == buffers && (array is Some
            <==> buffers is Some),
        array is None && buffers is None ==> crate::xhci_iommu::scratchpad_pair(
            array,
            buffers,
            generation,
        ) is Ok,
{
}

} // verus!
