use boulder_drivers::device_census::{
    DeviceAddress, DeviceFamily, PciFunctionEvidence, EVIDENCE_CLASS_TUPLE, EVIDENCE_IDENTITY,
    EVIDENCE_PCI_CONFIGURATION,
};
use boulder_drivers::drivernet::fingerprint::{
    ConfigurationTrace, FingerprintError, PciConfigReader, PciFunctionAddress,
};
use boulder_drivers::mmio::{MmioAccessError, MmioTrace, RegisterAccess, RegisterWindow};
use boulder_drivers::xhci::{
    containment_root, decode_bar0, decode_snapshot, discover_bootstrap_capabilities,
    validate_configuration, BootstrapDiscovery, BootstrapRange, CapabilityRegisters,
    XhciProbeError, MAXIMUM_BOOTSTRAP_OFFSET,
};

struct Configuration {
    values: [u32; 16],
}

struct ExtendedHeaders {
    entries: Vec<(u32, u32)>,
    mapped: u64,
    reads: usize,
}

impl RegisterWindow for ExtendedHeaders {
    fn map(&mut self, physical: u64, _length: usize) -> Result<(), MmioAccessError> {
        self.mapped = physical;
        Ok(())
    }

    fn read_u32(&mut self, _offset: usize) -> Result<u32, MmioAccessError> {
        Err(MmioAccessError { code: -1 })
    }

    fn access(&mut self, _access: RegisterAccess) -> Result<u32, MmioAccessError> {
        self.reads += 1;
        self.entries
            .iter()
            .find(|(known, _)| u64::from(*known) == self.mapped)
            .map(|(_, header)| *header)
            .ok_or(MmioAccessError { code: -2 })
    }

    fn close(&mut self) -> i32 {
        0
    }
}

fn discover(
    reader: &mut ExtendedHeaders,
    initial_offset: u32,
    secret: u64,
) -> Result<BootstrapDiscovery, XhciProbeError> {
    discover_bootstrap_capabilities(0, initial_offset, secret, &mut MmioTrace::new(reader))
}

impl PciConfigReader for Configuration {
    fn maximum_offset(&mut self) -> u16 {
        0x3c
    }

    fn read_u32(
        &mut self,
        _address: PciFunctionAddress,
        offset: u16,
    ) -> Result<u32, FingerprintError> {
        if offset & 3 != 0 || offset > self.maximum_offset() {
            return Err(FingerprintError::UnsupportedConfigurationOffset);
        }
        Ok(self.values[usize::from(offset / 4)])
    }
}

fn address() -> DeviceAddress {
    DeviceAddress {
        segment: 0,
        bus: 0,
        slot: 5,
        function: 0,
    }
}

fn registers(
    cap_version: u32,
    hcsparams1: u32,
    hcsparams2: u32,
    hccparams1: u32,
    doorbell_offset: u32,
    runtime_offset: u32,
) -> CapabilityRegisters {
    CapabilityRegisters {
        cap_version,
        hcsparams1,
        hcsparams2,
        hccparams1,
        doorbell_offset,
        runtime_offset,
    }
}

fn evidence() -> PciFunctionEvidence {
    PciFunctionEvidence {
        address: address(),
        vendor_id: 0x1234,
        device_id: 0x5678,
        class_code: 0x0c,
        subclass: 0x03,
        programming_interface: 0x30,
        revision: 1,
        header_type: 0,
        interrupt_line: 11,
        interrupt_pin: 1,
        command: 0x0007,
        bar_count: 6,
        raw_bars: [0xfebf_0004, 1, 0, 0, 0, 0],
        family: DeviceFamily::UsbHostController,
        evidence_mask: EVIDENCE_IDENTITY | EVIDENCE_CLASS_TUPLE | EVIDENCE_PCI_CONFIGURATION,
        dmar_covered: false,
        evidence_root: 0x1234,
    }
}

fn configuration() -> Configuration {
    let evidence = evidence();
    let mut values = [0_u32; 16];
    values[0] = u32::from(evidence.vendor_id) | (u32::from(evidence.device_id) << 16);
    values[1] = u32::from(evidence.command);
    values[2] = u32::from(evidence.revision)
        | (u32::from(evidence.programming_interface) << 8)
        | (u32::from(evidence.subclass) << 16)
        | (u32::from(evidence.class_code) << 24);
    values[3] = u32::from(evidence.header_type) << 16;
    values[4..10].copy_from_slice(&evidence.raw_bars);
    Configuration { values }
}

#[test]
fn decodes_bounded_capability_geometry() {
    let snapshot = decode_snapshot(
        address(),
        0x1234,
        0xabcd,
        0xfebf_0000,
        registers(
            0x0100_0040,
            (8 << 24) | (4 << 8) | 32,
            (2 << 27) | (3 << 21),
            1 | (1 << 2) | (0x80 << 16),
            0x1000,
            0x2000,
        ),
        7,
    )
    .unwrap();

    assert_eq!(snapshot.capability_length, 0x40);
    assert_eq!(snapshot.interface_version, 0x0100);
    assert_eq!(snapshot.maximum_device_slots, 32);
    assert_eq!(snapshot.maximum_interrupters, 4);
    assert_eq!(snapshot.maximum_ports, 8);
    assert_eq!(snapshot.maximum_scratchpad_buffers, 98);
    assert_eq!(snapshot.extended_capabilities_offset, 0x200);
    assert_ne!(snapshot.snapshot_root, 0);
}

#[test]
fn configuration_snapshot_rejects_identity_or_bar_drift() {
    let function = PciFunctionAddress {
        segment: 0,
        bus: 0,
        slot: 5,
        function: 0,
    };
    let measured = evidence();
    let current = configuration();
    assert_eq!(validate_configuration(
            &mut ConfigurationTrace::new(current),
            function,
            measured
        ), Ok(()));
    assert_eq!(decode_bar0(measured), Ok(0x0000_0001_febf_0000));

    let mut changed = configuration();
    changed.values[4] = 0xdeaf_0004;
    assert_eq!(
        validate_configuration(
            &mut ConfigurationTrace::new(changed),
            function,
            measured
        ),
        Err(XhciProbeError::ConfigurationChanged)
    );
}

#[test]
fn rejects_empty_geometry_and_register_aliases() {
    assert_eq!(
        decode_snapshot(
            address(),
            0x1234,
            0xabcd,
            1,
            registers(0x0100_0020, 0, 0, 0, 0x100, 0x200),
            3,
        ),
        Err(XhciProbeError::InvalidGeometry)
    );
    assert_eq!(
        decode_snapshot(
            address(),
            0x1234,
            0xabcd,
            1,
            registers(0x0100_0040, (1 << 24) | (1 << 8) | 1, 0, 0, 0x20, 0x80,),
            3,
        ),
        Err(XhciProbeError::InvalidRegisterOffset)
    );
}

#[test]
fn rejects_misaligned_lengths_non_bcd_versions_and_excess_interrupters() {
    let geometry = (1 << 24) | (1 << 8) | 1;
    assert_eq!(
        decode_snapshot(
            address(),
            0x1234,
            0xabcd,
            1,
            registers(0x0100_0021, geometry, 0, 0, 0x100, 0x200),
            3,
        ),
        Err(XhciProbeError::InvalidCapabilityLength(0x21))
    );
    assert_eq!(
        decode_snapshot(
            address(),
            0x1234,
            0xabcd,
            1,
            registers(0x01a0_0040, geometry, 0, 0, 0x100, 0x200),
            3,
        ),
        Err(XhciProbeError::UnsupportedInterfaceVersion(0x01a0))
    );
    assert_eq!(
        decode_snapshot(
            address(),
            0x1234,
            0xabcd,
            1,
            registers(0x0100_0040, (1 << 24) | (1025 << 8) | 1, 0, 0, 0x100, 0x200,),
            3,
        ),
        Err(XhciProbeError::InvalidGeometry)
    );
}

#[test]
fn snapshot_root_binds_geometry() {
    let first = decode_snapshot(
        address(),
        0x1234,
        0xabcd,
        0x1000,
        registers(0x0100_0040, (4 << 24) | (1 << 8) | 8, 0, 1, 0x100, 0x200),
        9,
    )
    .unwrap();
    let second = decode_snapshot(
        address(),
        0x1234,
        0xabcd,
        0x1000,
        registers(0x0100_0040, (5 << 24) | (1 << 8) | 8, 0, 1, 0x100, 0x200),
        9,
    )
    .unwrap();
    assert_ne!(first.snapshot_root, second.snapshot_root);
}

#[test]
fn snapshot_and_containment_roots_bind_authority_and_fault_class() {
    let first = decode_snapshot(
        address(),
        0x1234,
        0xabcd,
        0x1000,
        registers(0x0100_0040, (4 << 24) | (1 << 8) | 8, 0, 1, 0x100, 0x200),
        9,
    )
    .unwrap();
    let second = decode_snapshot(
        address(),
        0x1234,
        0xabce,
        0x1000,
        registers(0x0100_0040, (4 << 24) | (1 << 8) | 8, 0, 1, 0x100, 0x200),
        9,
    )
    .unwrap();
    assert_ne!(first.snapshot_root, second.snapshot_root);

    let malformed = containment_root(
        9,
        0x1234,
        address(),
        XhciProbeError::InvalidCapabilityLength(0x10),
    )
    .unwrap();
    let missing = containment_root(9, 0x1234, address(), XhciProbeError::MissingBar).unwrap();
    assert_ne!(malformed, missing);
}

#[test]
fn bootstrap_walk_uses_current_relative_next_offsets() {
    let mut reader = ExtendedHeaders {
        entries: vec![(0x100, 0x0000_0202), (0x108, 0x0000_0001)],
        mapped: 0,
        reads: 0,
    };
    let discovery = discover(&mut reader, 0x100, 9).unwrap();
    assert_eq!(discovery.legacy_support_offset, 0x108);
    assert_eq!(reader.reads, 2);
    assert_eq!(
        discovery.journal.ranges(),
        &[
            BootstrapRange {
                offset: 0x100,
                length: 4,
            },
            BootstrapRange {
                offset: 0x108,
                length: 8,
            },
        ]
    );
    assert_ne!(discovery.journal.root(), 0);
}

#[test]
fn qemu_protocol_headers_prove_legacy_handoff_is_not_advertised() {
    let mut reader = ExtendedHeaders {
        entries: vec![(0x20, 0x0200_0402), (0x30, 0x0300_0002)],
        mapped: 0,
        reads: 0,
    };
    let discovery = discover(&mut reader, 0x20, 11).unwrap();
    assert_eq!(discovery.legacy_support_offset, 0);
    assert_eq!(discovery.journal.ranges().len(), 2);
    assert_eq!(reader.reads, 2);
}

#[test]
fn bootstrap_walk_rejects_overlapping_legacy_payload_and_policy_escape() {
    let mut overlap = ExtendedHeaders {
        entries: vec![(0x20, 0x0000_0101)],
        mapped: 0,
        reads: 0,
    };
    assert_eq!(
        discover(&mut overlap, 0x20, 13).map(|_| ()),
        Err(XhciProbeError::BootstrapCapabilityOverlap(0x20))
    );

    let mut invalid = ExtendedHeaders {
        entries: vec![],
        mapped: 0,
        reads: 0,
    };
    assert_eq!(
        discover(&mut invalid, MAXIMUM_BOOTSTRAP_OFFSET + 4, 13).map(|_| ()),
        Err(XhciProbeError::InvalidBootstrapOffset(
            MAXIMUM_BOOTSTRAP_OFFSET + 4
        ))
    );
    assert_eq!(invalid.reads, 0);
}
