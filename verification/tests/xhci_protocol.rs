use boulder_drivers::pci::{Bar0ApertureLease, Bar0ApertureRange, BarApertureBoundsError, PciAddress};
use boulder_drivers::xhci_protocol::{
    decode_supported_protocols, CheckedSupportedProtocolRead, ProtocolTrace,
    SupportedProtocolError, SupportedProtocolEvidence, UsbProtocolKind,
    MAXIMUM_EXTENDED_CAPABILITY_HOPS, MAXIMUM_SUPPORTED_PROTOCOLS,
    SUPPORTED_PROTOCOL_CAPABILITY_ID, USB_PROTOCOL_NAME,
};

#[derive(Clone, Copy, Debug, Eq, PartialEq)]
enum ReadFault {
    Injected,
    Missing(u32),
}

struct ImageReader {
    aperture_base: u64,
    aperture_bytes: u64,
    words: Vec<(u32, u32)>,
    reads: Vec<u32>,
    fail_at: Option<u32>,
}

impl ImageReader {
    fn new(aperture_bytes: u64, words: Vec<(u32, u32)>) -> Self {
        Self {
            aperture_base: 0x8000_0000,
            aperture_bytes,
            words,
            reads: Vec::new(),
            fail_at: None,
        }
    }
}

impl CheckedSupportedProtocolRead for ImageReader {
    type Error = ReadFault;

    fn read_u32(&mut self, range: Bar0ApertureRange) -> Result<u32, ReadFault> {
        let offset = (range.physical_address() - self.aperture_base) as u32;
        self.reads.push(offset);
        if self.fail_at == Some(offset) {
            return Err(ReadFault::Injected);
        }
        self.words
            .iter()
            .find(|(known, _)| *known == offset)
            .map(|(_, value)| *value)
            .ok_or(ReadFault::Missing(offset))
    }
}

fn decode_with(
    reader: &mut ImageReader,
    initial_offset: u32,
    maximum_ports: u8,
    secret: u64,
) -> Result<SupportedProtocolEvidence, SupportedProtocolError<ReadFault>> {
    let aperture = Bar0ApertureLease {
        address: PciAddress::new(0, 5, 0).unwrap(),
        physical_base: reader.aperture_base,
        length: reader.aperture_bytes,
    };
    decode_supported_protocols(
        &aperture,
        initial_offset,
        maximum_ports,
        secret,
        &mut ProtocolTrace::new(reader),
    )
}

fn header(next_dwords: u8, minor: u8, major: u8) -> u32 {
    u32::from(SUPPORTED_PROTOCOL_CAPABILITY_ID)
        | (u32::from(next_dwords) << 8)
        | (u32::from(minor) << 16)
        | (u32::from(major) << 24)
}

fn protocol(
    offset: u32,
    next_dwords: u8,
    major: u8,
    minor: u8,
    first_port: u8,
    port_count: u8,
    speeds: &[u32],
) -> Vec<(u32, u32)> {
    let mut words = Vec::new();
    words.push((offset, header(next_dwords, minor, major)));
    words.push((offset + 4, USB_PROTOCOL_NAME));
    words.push((
        offset + 8,
        u32::from(first_port) | (u32::from(port_count) << 8) | ((speeds.len() as u32) << 28),
    ));
    words.push((offset + 12, 1));
    for (index, speed) in speeds.iter().enumerate() {
        words.push((offset + 16 + index as u32 * 4, *speed));
    }
    words
}

fn decode_image(
    reader: &mut ImageReader,
    initial_offset: u32,
    maximum_ports: u8,
) -> Result<SupportedProtocolEvidence, SupportedProtocolError<ReadFault>> {
    decode_with(reader, initial_offset, maximum_ports, 0x1234_5678_9abc_def0)
}

#[test]
fn empty_chain_cannot_masquerade_as_protocol_evidence() {
    let mut reader = ImageReader::new(0x100, Vec::new());
    assert_eq!(
        decode_image(&mut reader, 0, 8),
        Err(SupportedProtocolError::MissingSupportedProtocol)
    );
    assert!(reader.reads.is_empty());
}

#[test]
fn decodes_usb2_and_usb3_with_current_relative_next_offsets() {
    let mut words = protocol(0x40, 8, 0x02, 0x00, 1, 4, &[0x0004_0001]);
    words.extend(protocol(
        0x60,
        0,
        0x03,
        0x20,
        5,
        4,
        &[0x0005_0001, 0x000a_0002],
    ));
    let mut reader = ImageReader::new(0x100, words);
    let evidence = decode_image(&mut reader, 0x40, 8).unwrap();
    assert_eq!(evidence.protocol_count(), 2);
    assert_eq!(evidence.extended_capability_count, 2);
    assert_eq!(evidence.protocols()[0].kind, UsbProtocolKind::Usb2);
    assert_eq!(evidence.protocols()[0].revision_bcd, 0x0200);
    assert_eq!(evidence.protocols()[0].next_capability_offset, Some(0x60));
    assert_eq!(evidence.protocols()[1].kind, UsbProtocolKind::Usb3);
    assert_eq!(evidence.protocols()[1].revision_bcd, 0x0320);
    assert_eq!(evidence.usb2_protocols().len(), 1);
    assert_eq!(evidence.usb3_protocols().len(), 1);
    assert_eq!(
        reader.reads,
        [
            0x40, 0x44, 0x48, 0x4c, 0x50, 0x60, 0x64, 0x68, 0x6c, 0x70, 0x74
        ]
    );
}

#[test]
fn unknown_capabilities_are_rooted_but_not_interpreted_as_children() {
    let unknown_header = 0x99_u32 | (4 << 8);
    let words = [
        (0x20, unknown_header),
        (0x30, header(0, 0, 3)),
        (0x34, USB_PROTOCOL_NAME),
        (0x38, 1 | (2 << 8)),
        (0x3c, 0),
    ];
    let mut reader = ImageReader::new(0x80, words.into());
    let evidence = decode_image(&mut reader, 0x20, 2).unwrap();
    assert_eq!(evidence.extended_capability_count, 2);
    assert_eq!(evidence.protocol_count(), 1);
    assert_eq!(reader.reads, [0x20, 0x30, 0x34, 0x38, 0x3c]);
}

#[test]
fn deterministic_root_binds_lease_and_every_protocol_body() {
    let words = protocol(0x40, 0, 3, 0x10, 1, 2, &[0x0005_0001]);
    let mut first = ImageReader::new(0x100, words.clone());
    let first_root = decode_image(&mut first, 0x40, 2).unwrap().root;
    let mut replay = ImageReader::new(0x100, words.clone());
    assert_eq!(decode_image(&mut replay, 0x40, 2).unwrap().root, first_root);

    let mut changed_words = words;
    changed_words
        .iter_mut()
        .find(|(offset, _)| *offset == 0x50)
        .unwrap()
        .1 ^= 1 << 16;
    let mut changed = ImageReader::new(0x100, changed_words);
    assert_ne!(
        decode_image(&mut changed, 0x40, 2).unwrap().root,
        first_root
    );

    let mut moved = ImageReader::new(0x100, protocol(0x40, 0, 3, 0x10, 1, 2, &[0x0005_0001]));
    moved.aperture_base += 0x1000;
    assert_ne!(decode_image(&mut moved, 0x40, 2).unwrap().root, first_root);
}

#[test]
fn rejects_zero_secret_and_zero_maximum_ports_without_reads() {
    let mut reader = ImageReader::new(0x100, Vec::new());
    assert_eq!(
        decode_with(&mut reader, 0, 8, 0),
        Err(SupportedProtocolError::InvalidSecret)
    );
    assert_eq!(
        decode_image(&mut reader, 0, 0),
        Err(SupportedProtocolError::InvalidMaximumPorts)
    );
    assert!(reader.reads.is_empty());
}

#[test]
fn rejects_misaligned_low_and_out_of_aperture_offsets_before_reads() {
    for (offset, expected) in [
        (0x1c, SupportedProtocolError::InvalidCapabilityOffset(0x1c)),
        (0x22, SupportedProtocolError::InvalidCapabilityOffset(0x22)),
        (
            0x80,
            SupportedProtocolError::CapabilityOutsideAperture {
                offset: 0x80,
                bytes: 4,
                aperture_bytes: 0x80,
            },
        ),
    ] {
        let mut reader = ImageReader::new(0x80, Vec::new());
        assert_eq!(decode_image(&mut reader, offset, 8), Err(expected));
        assert!(reader.reads.is_empty());
    }
}

#[test]
fn propagates_checked_reader_failures() {
    let mut reader = ImageReader::new(0x100, protocol(0x40, 0, 2, 0, 1, 1, &[]));
    reader.fail_at = Some(0x44);
    assert_eq!(
        decode_image(&mut reader, 0x40, 1),
        Err(SupportedProtocolError::Read(ReadFault::Injected))
    );
}

#[test]
fn rejects_non_bcd_revisions_and_unknown_major_versions() {
    let mut bad_major = ImageReader::new(0x100, protocol(0x40, 0, 0x2a, 0, 1, 1, &[]));
    assert_eq!(
        decode_image(&mut bad_major, 0x40, 1),
        Err(SupportedProtocolError::InvalidBcdRevision {
            offset: 0x40,
            major: 0x2a,
            minor: 0
        })
    );
    let mut bad_minor = ImageReader::new(0x100, protocol(0x40, 0, 2, 0x1a, 1, 1, &[]));
    assert_eq!(
        decode_image(&mut bad_minor, 0x40, 1),
        Err(SupportedProtocolError::InvalidBcdRevision {
            offset: 0x40,
            major: 2,
            minor: 0x1a
        })
    );
    let mut unknown = ImageReader::new(0x100, protocol(0x40, 0, 4, 0, 1, 1, &[]));
    assert_eq!(
        decode_image(&mut unknown, 0x40, 1),
        Err(SupportedProtocolError::UnsupportedMajorRevision {
            offset: 0x40,
            major: 4
        })
    );
    let mut unsupported_usb2 = ImageReader::new(0x100, protocol(0x40, 0, 2, 0x10, 1, 1, &[]));
    assert_eq!(
        decode_image(&mut unsupported_usb2, 0x40, 1),
        Err(SupportedProtocolError::UnsupportedMinorRevision {
            offset: 0x40,
            major: 2,
            minor: 0x10
        })
    );
    let mut unsupported_usb3 = ImageReader::new(0x100, protocol(0x40, 0, 3, 0x30, 1, 1, &[]));
    assert_eq!(
        decode_image(&mut unsupported_usb3, 0x40, 1),
        Err(SupportedProtocolError::UnsupportedMinorRevision {
            offset: 0x40,
            major: 3,
            minor: 0x30
        })
    );
}

#[test]
fn rejects_non_usb_protocol_name() {
    let mut words = protocol(0x40, 0, 2, 0, 1, 1, &[]);
    words[1].1 = u32::from_le_bytes(*b"PCI ");
    let mut reader = ImageReader::new(0x100, words);
    assert_eq!(
        decode_image(&mut reader, 0x40, 1),
        Err(SupportedProtocolError::InvalidProtocolName {
            offset: 0x40,
            name: u32::from_le_bytes(*b"PCI ")
        })
    );
}

#[test]
fn rejects_empty_wrapping_and_out_of_maxports_ranges() {
    for (first, count, maximum) in [(0, 1, 8), (1, 0, 8), (250, 10, 255), (8, 2, 8)] {
        let mut reader = ImageReader::new(0x100, protocol(0x40, 0, 2, 0, first, count, &[]));
        assert_eq!(
            decode_image(&mut reader, 0x40, maximum),
            Err(SupportedProtocolError::InvalidCompatiblePortRange {
                offset: 0x40,
                first_port: first,
                port_count: count,
                maximum_ports: maximum
            })
        );
    }
}

#[test]
fn rejects_duplicate_and_partially_overlapping_port_coverage() {
    let mut duplicate_words = protocol(0x40, 4, 2, 0, 1, 2, &[]);
    duplicate_words.extend(protocol(0x50, 0, 3, 0, 1, 2, &[]));
    let mut duplicate = ImageReader::new(0x100, duplicate_words);
    assert_eq!(
        decode_image(&mut duplicate, 0x40, 4),
        Err(SupportedProtocolError::DuplicateProtocolCoverage {
            offset: 0x50,
            prior_offset: 0x40
        })
    );

    let mut overlap_words = protocol(0x40, 4, 2, 0, 1, 3, &[]);
    overlap_words.extend(protocol(0x50, 0, 3, 0, 3, 2, &[]));
    let mut overlap = ImageReader::new(0x100, overlap_words);
    assert_eq!(
        decode_image(&mut overlap, 0x40, 4),
        Err(SupportedProtocolError::OverlappingProtocolCoverage {
            offset: 0x50,
            prior_offset: 0x40,
            port: 3
        })
    );
}

#[test]
fn requires_a_supported_protocol_range_anchored_at_port_one() {
    let mut reader = ImageReader::new(0x100, protocol(0x40, 0, 3, 0, 2, 2, &[]));
    assert_eq!(
        decode_image(&mut reader, 0x40, 4),
        Err(SupportedProtocolError::MissingPortOneCoverage)
    );
}

#[test]
fn rejects_next_pointer_inside_supported_protocol_body() {
    let mut reader = ImageReader::new(0x100, protocol(0x40, 4, 2, 0, 1, 1, &[1]));
    assert_eq!(
        decode_image(&mut reader, 0x40, 1),
        Err(SupportedProtocolError::BodyOverlapsNextCapability {
            offset: 0x40,
            body_end: 0x54,
            next: 0x50
        })
    );
}

#[test]
fn rejects_body_and_next_ranges_outside_the_aperture() {
    let mut body = ImageReader::new(0x50, protocol(0x40, 0, 2, 0, 1, 1, &[1]));
    assert_eq!(
        decode_image(&mut body, 0x40, 1),
        Err(SupportedProtocolError::CapabilityOutsideAperture {
            offset: 0x40,
            bytes: 20,
            aperture_bytes: 0x50
        })
    );

    let words = [(0x40, 0xff00_u32 | 0x99)];
    let mut next = ImageReader::new(0x100, words.into());
    assert_eq!(
        decode_image(&mut next, 0x40, 1),
        Err(SupportedProtocolError::CapabilityOutsideAperture {
            offset: 0x43c,
            bytes: 4,
            aperture_bytes: 0x100
        })
    );
}

#[test]
fn rejects_wrapping_relative_next_as_a_cycle() {
    let current = 0xffff_fffc;
    let mut reader = ImageReader::new(
        u64::from(u32::MAX) + 1,
        [(current, 0x0100_u32 | 0x99)].into(),
    );
    assert_eq!(
        decode_image(&mut reader, current, 1),
        Err(SupportedProtocolError::CapabilityCycle {
            from: current,
            to: 0
        })
    );
}

#[test]
fn rejects_zero_and_duplicate_protocol_speed_ids() {
    let mut zero = ImageReader::new(0x100, protocol(0x40, 0, 3, 0, 1, 1, &[0]));
    assert_eq!(
        decode_image(&mut zero, 0x40, 1),
        Err(SupportedProtocolError::InvalidProtocolSpeedId {
            offset: 0x50,
            speed_id: 0
        })
    );

    let mut duplicate = ImageReader::new(0x100, protocol(0x40, 0, 3, 0, 1, 1, &[1, 0x10001]));
    assert_eq!(
        decode_image(&mut duplicate, 0x40, 1),
        Err(SupportedProtocolError::DuplicateProtocolSpeedId {
            offset: 0x54,
            speed_id: 1
        })
    );
}

#[test]
fn rejects_reserved_and_unpaired_asymmetric_speed_types() {
    let mut reserved = ImageReader::new(0x100, protocol(0x40, 0, 3, 0, 1, 1, &[1 | (1 << 6)]));
    assert_eq!(
        decode_image(&mut reserved, 0x40, 1),
        Err(SupportedProtocolError::ReservedProtocolSpeedType { offset: 0x50 })
    );

    let mut unpaired = ImageReader::new(0x100, protocol(0x40, 0, 3, 0, 1, 1, &[1 | (2 << 6)]));
    assert_eq!(
        decode_image(&mut unpaired, 0x40, 1),
        Err(SupportedProtocolError::UnpairedAsymmetricProtocolSpeed {
            offset: 0x50,
            speed_id: 1
        })
    );

    let mut paired = ImageReader::new(
        0x100,
        protocol(0x40, 0, 3, 0, 1, 1, &[1 | (2 << 6), 2 | (3 << 6)]),
    );
    assert!(decode_image(&mut paired, 0x40, 1).is_ok());

    let mut separated = ImageReader::new(
        0x100,
        protocol(0x40, 0, 3, 0, 1, 1, &[1 | (2 << 6), 3, 2 | (3 << 6)]),
    );
    assert_eq!(
        decode_image(&mut separated, 0x40, 1),
        Err(SupportedProtocolError::UnpairedAsymmetricProtocolSpeed {
            offset: 0x50,
            speed_id: 1
        })
    );

    let mut transmit_first = ImageReader::new(
        0x100,
        protocol(0x40, 0, 3, 0, 1, 1, &[1 | (3 << 6), 2 | (2 << 6)]),
    );
    assert_eq!(
        decode_image(&mut transmit_first, 0x40, 1),
        Err(SupportedProtocolError::UnpairedAsymmetricProtocolSpeed {
            offset: 0x50,
            speed_id: 1
        })
    );
}

#[test]
fn fixed_protocol_capacity_is_enforced() {
    let mut words = Vec::new();
    for index in 0..=MAXIMUM_SUPPORTED_PROTOCOLS {
        let offset = 0x40 + index as u32 * 0x10;
        let next = if index == MAXIMUM_SUPPORTED_PROTOCOLS {
            0
        } else {
            4
        };
        words.extend(protocol(offset, next, 2, 0, index as u8 + 1, 1, &[]));
    }
    let mut reader = ImageReader::new(0x200, words);
    assert_eq!(
        decode_image(&mut reader, 0x40, 32),
        Err(SupportedProtocolError::SupportedProtocolCapacity)
    );
}

#[test]
fn bounded_chain_capacity_is_enforced() {
    let mut words = Vec::new();
    for index in 0..=MAXIMUM_EXTENDED_CAPABILITY_HOPS {
        let offset = 0x40 + index as u32 * 4;
        let next = if index == MAXIMUM_EXTENDED_CAPABILITY_HOPS {
            0
        } else {
            1
        };
        words.push((offset, 0x99 | (next << 8)));
    }
    let mut reader = ImageReader::new(0x200, words);
    assert_eq!(
        decode_image(&mut reader, 0x40, 1),
        Err(SupportedProtocolError::ExtendedCapabilityCapacity)
    );
    assert_eq!(reader.reads.len(), MAXIMUM_EXTENDED_CAPABILITY_HOPS);
}

#[test]
fn a_lease_grants_only_what_it_holds() {
    let lease = Bar0ApertureLease {
        address: PciAddress::new(0, 5, 0).unwrap(),
        physical_base: 0x8000_0000,
        length: 0x100,
    };
    let range = lease.checked_range(0xfc, 4).unwrap();
    assert_eq!(range.physical_address(), 0x8000_00fc);
    assert_eq!(
        lease.checked_range(0xfd, 4),
        Err(BarApertureBoundsError::OutsideAperture)
    );
    assert_eq!(
        lease.checked_range(0, 0),
        Err(BarApertureBoundsError::EmptyRange)
    );
}
