use boulder_drivers::device_census::{
    boot_census_summary, boot_device_record, publish_boot_census, CensusError, DeviceAddress,
    DeviceCensus, DeviceFamily, DeviceState, DmarInfo, DriverBindingManifest,
    PciFunctionEvidence, AUTHORITY_DELEGATE, AUTHORITY_DMA, AUTHORITY_MMIO, EVIDENCE_CLASS_TUPLE,
    EVIDENCE_DMAR_COVERAGE, EVIDENCE_IDENTITY, EVIDENCE_PCI_CONFIGURATION, PCI_CLASS_DISPLAY,
};
use boulder_drivers::pci::{PciAddress, PciDevice, PciInventory};

fn device(address: PciAddress, class_code: u8, subclass: u8, interface: u8) -> PciDevice {
    PciDevice {
        address,
        vendor_id: 0x1234,
        device_id: 0x5678,
        class_code,
        subclass,
        programming_interface: interface,
        revision: 1,
        header_type: 0,
        interrupt_line: 11,
        interrupt_pin: 1,
        command: 0x0007,
        bar_count: 6,
        raw_bars: [0x8000_0000, 0, 0, 0, 0, 0],
    }
}

fn address(bus: u8, slot: u8, function: u8) -> PciAddress {
    PciAddress::new(bus, slot, function).unwrap()
}

fn covering(devices: &[PciDevice]) -> DmarInfo {
    DmarInfo {
        endpoints: devices
            .iter()
            .map(|device| DeviceAddress {
                segment: 0,
                bus: device.address.bus,
                slot: device.address.slot,
                function: device.address.function,
            })
            .collect(),
    }
}

fn display_manifest() -> DriverBindingManifest {
    DriverBindingManifest {
        driver_id: 0x4452_4956_4552_4e45,
        family: DeviceFamily::DisplayAdapter,
        vendor_id: 0xffff,
        device_id_mask: 0,
        device_id_value: 0,
        class_code_mask: u8::MAX,
        class_code_value: PCI_CLASS_DISPLAY,
        subclass_mask: 0,
        subclass_value: 0,
        programming_interface_mask: 0,
        programming_interface_value: 0,
        revision_minimum: 0,
        revision_maximum: u8::MAX,
        required_evidence: EVIDENCE_IDENTITY | EVIDENCE_CLASS_TUPLE | EVIDENCE_PCI_CONFIGURATION,
        requested_authority: AUTHORITY_DELEGATE,
    }
}

fn measured<const N: usize>(
    devices: &[PciDevice],
    secret: u64,
    dmar: Option<&DmarInfo>,
) -> DeviceCensus<N> {
    match DeviceCensus::<N>::measure_functions(devices, secret, dmar) {
        Ok(census) => census,
        Err(error) => panic!("{:?}", error),
    }
}

fn refusal<const N: usize>(devices: &[PciDevice], secret: u64) -> CensusError {
    match DeviceCensus::<N>::measure_functions(devices, secret, None) {
        Ok(_) => panic!("the census was measured"),
        Err(error) => error,
    }
}

#[test]
fn classifies_bus_evidence_without_inventing_child_devices() {
    let devices = [
        device(address(0, 1, 0), 0x03, 0x00, 0),
        device(address(0, 1, 1), 0x04, 0x03, 0),
        device(address(0, 2, 0), 0x04, 0x00, 0),
        device(address(0, 3, 0), 0x02, 0x80, 0),
        device(address(0, 4, 0), 0x0c, 0x03, 0x30),
        device(address(0, 5, 0), 0x09, 0x02, 0),
        device(address(0, 6, 0), 0x0d, 0x20, 0),
    ];
    let census = measured::<8>(&devices, 7, None);
    let families: Vec<DeviceFamily> = census
        .evidence()
        .iter()
        .map(|evidence| evidence.family)
        .collect();

    assert_eq!(families[0], DeviceFamily::DisplayAdapter);
    assert_eq!(families[1], DeviceFamily::AudioController);
    assert_eq!(families[2], DeviceFamily::MultimediaVideoController);
    assert_eq!(families[3], DeviceFamily::NetworkController);
    assert_eq!(families[4], DeviceFamily::UsbHostController);
    assert_eq!(families[5], DeviceFamily::InputController);
    assert_eq!(families[6], DeviceFamily::WirelessController);
}

#[test]
fn multifunction_display_and_audio_are_both_retained() {
    let devices = [
        device(address(1, 2, 0), 0x03, 0x00, 0),
        device(address(1, 2, 1), 0x04, 0x03, 0),
    ];
    let census = measured::<4>(&devices, 11, Some(&covering(&devices)));
    let summary = census.summary();
    assert_eq!(summary.total, 2);
    assert_eq!(summary.display, 1);
    assert_eq!(summary.audio, 1);
    assert!(census
        .evidence()
        .iter()
        .all(|evidence| evidence.dmar_covered));
}

#[test]
fn duplicate_addresses_and_capacity_fail_closed() {
    let repeated = device(address(0, 1, 0), 0x03, 0, 0);
    assert_eq!(
        refusal::<2>(&[repeated, repeated], 5),
        CensusError::DuplicateAddress
    );
    assert_eq!(
        refusal::<1>(&[repeated, device(address(0, 2, 0), 0x04, 1, 0)], 5),
        CensusError::Capacity
    );
}

#[test]
fn dmar_coverage_is_evidence_not_dma_authority() {
    let display = device(address(0, 1, 0), 0x03, 0, 0);
    let mut census = measured::<1>(&[display], 13, Some(&covering(&[display])));
    let mut manifest = display_manifest();
    manifest.requested_authority = AUTHORITY_DMA;

    assert_eq!(
        census
            .claim_family::<1>(manifest, AUTHORITY_DELEGATE)
            .err()
            .unwrap(),
        CensusError::AuthorityUnavailable(AUTHORITY_DMA)
    );
    assert_eq!(census.summary().detected, 1);
}

#[test]
fn claims_commit_once_and_stale_replay_is_rejected() {
    let display = device(address(0, 1, 0), 0x03, 0, 0);
    let mut census = measured::<1>(&[display], 17, None);
    let claims = census
        .claim_family::<1>(display_manifest(), AUTHORITY_DELEGATE)
        .ok()
        .unwrap();
    let claim = claims.claims()[0];
    let lease = census.commit(claim, 0xcafe).unwrap();

    assert_ne!(lease.lease_root, 0);
    assert_eq!(census.summary().operational, 1);
    assert_eq!(census.commit(claim, 0xbeef), Err(CensusError::StaleClaim));
}

#[test]
fn exact_class_tuple_leaves_other_usb_generations_unclaimed() {
    let devices = [
        device(address(0, 4, 0), 0x0c, 0x03, 0x30),
        device(address(0, 5, 0), 0x0c, 0x03, 0x20),
    ];
    let mut census = measured::<2>(&devices, 29, None);
    let manifest = DriverBindingManifest {
        driver_id: 0x5848_4349,
        family: DeviceFamily::UsbHostController,
        vendor_id: 0xffff,
        device_id_mask: 0,
        device_id_value: 0,
        class_code_mask: u8::MAX,
        class_code_value: 0x0c,
        subclass_mask: u8::MAX,
        subclass_value: 0x03,
        programming_interface_mask: u8::MAX,
        programming_interface_value: 0x30,
        revision_minimum: 0,
        revision_maximum: u8::MAX,
        required_evidence: EVIDENCE_IDENTITY | EVIDENCE_CLASS_TUPLE | EVIDENCE_PCI_CONFIGURATION,
        requested_authority: AUTHORITY_MMIO,
    };

    let claims = census
        .claim_family::<1>(manifest, AUTHORITY_MMIO)
        .ok()
        .unwrap();
    assert_eq!(claims.claims().len(), 1);
    assert_eq!(claims.claims()[0].address().slot, 4);
    assert_eq!(census.summary().claimed, 1);
    assert_eq!(census.summary().detected, 1);
}

#[test]
fn authorization_is_minted_only_for_a_live_exact_claim() {
    let display = device(address(0, 1, 0), 0x03, 0, 0);
    let mut census = measured::<1>(&[display], 31, None);
    let manifest = display_manifest();
    let claim = census
        .claim_family::<1>(manifest, AUTHORITY_DELEGATE)
        .ok()
        .unwrap()
        .claims()[0];

    assert_eq!(
        census
            .authorize(claim, manifest.driver_id + 1, AUTHORITY_DELEGATE)
            .err(),
        Some(CensusError::AuthorizationMismatch)
    );
    let authorization = census
        .authorize(claim, manifest.driver_id, AUTHORITY_DELEGATE)
        .ok()
        .unwrap();
    assert_eq!(authorization.address(), claim.address());
    assert_ne!(authorization.authorization_root(), 0);

    census.defer(claim, 0x1234).unwrap();
    assert_eq!(
        census
            .authorize(claim, manifest.driver_id, AUTHORITY_DELEGATE)
            .err(),
        Some(CensusError::StaleClaim)
    );
}

fn root(device: PciDevice, covered: bool) -> u64 {
    let dmar = covering(&[device]);
    let census = measured::<1>(&[device], 19, if covered { Some(&dmar) } else { None });
    census.evidence()[0].evidence_root
}

#[test]
fn every_observed_tuple_change_reseals_the_evidence() {
    let base = device(address(0, 1, 0), 0x03, 0, 0);
    let first = root(base, false);
    let mut changed = base;
    changed.interrupt_line = 12;
    let second = root(changed, false);
    let third = root(base, true);
    let mut remapped = base;
    remapped.raw_bars[0] = 0x9000_0000;
    let fourth = root(remapped, false);

    assert_ne!(first, second);
    assert_ne!(first, third);
    assert_ne!(first, fourth);
}

#[test]
fn a_census_refuses_no_secret_and_a_broken_inventory() {
    let display = device(address(0, 1, 0), 0x03, 0, 0);
    assert_eq!(refusal::<1>(&[display], 0), CensusError::InvalidSecret);
    let inventory = PciInventory {
        devices: vec![display],
        overflowed: true,
    };
    assert_eq!(
        DeviceCensus::<1>::measure_pci(&inventory, None, 7).err(),
        Some(CensusError::InventoryOverflow)
    );
}

#[test]
fn claims_need_evidence_a_match_and_a_permitted_authority() {
    let display = device(address(0, 1, 0), 0x03, 0, 0);
    let mut census = measured::<1>(&[display], 5, None);
    let mut manifest = display_manifest();
    manifest.driver_id = 0;
    assert_eq!(
        census
            .claim_family::<1>(manifest, AUTHORITY_DELEGATE)
            .err(),
        Some(CensusError::InvalidManifest)
    );
    manifest = display_manifest();
    manifest.vendor_id = 0x1111;
    let none = census
        .claim_family::<1>(manifest, AUTHORITY_DELEGATE)
        .ok()
        .unwrap();
    assert!(none.claims().is_empty());
    manifest = display_manifest();
    manifest.required_evidence |= EVIDENCE_DMAR_COVERAGE;
    assert_eq!(
        census
            .claim_family::<1>(manifest, AUTHORITY_DELEGATE)
            .err(),
        Some(CensusError::EvidenceMissing(EVIDENCE_DMAR_COVERAGE))
    );
    let claim = census
        .claim_family::<1>(display_manifest(), AUTHORITY_DELEGATE)
        .ok()
        .unwrap()
        .claims()[0];
    assert_eq!(
        census.quarantine(claim, 0),
        Err(CensusError::InvalidTerminalRoot)
    );
    assert_eq!(census.quarantine(claim, 3), Ok(()));
    assert_eq!(census.summary().quarantined, 1);
    let record = census
        .record(DeviceAddress {
            segment: 0,
            bus: 0,
            slot: 1,
            function: 0,
        })
        .unwrap();
    assert_eq!(record.state, DeviceState::Quarantined);
    assert_eq!(record.terminal_root, 3);
}

#[test]
fn a_boot_census_is_published_once() {
    let display = device(address(0, 1, 0), 0x03, 0, 0);
    let mut published = None;
    assert_eq!(boot_census_summary(&published), None);
    let summary = publish_boot_census(&mut published, measured::<256>(&[display], 5, None))
        .ok()
        .unwrap();
    assert_eq!(summary.total, 1);
    assert_eq!(boot_census_summary(&published).unwrap(), summary);
    assert_eq!(
        publish_boot_census(&mut published, measured::<256>(&[], 5, None)).err(),
        Some(CensusError::AlreadyPublished)
    );
    let evidence: PciFunctionEvidence = boot_device_record(
        &published,
        DeviceAddress {
            segment: 0,
            bus: 0,
            slot: 1,
            function: 0,
        },
    )
    .unwrap()
    .evidence;
    assert_eq!(evidence.vendor_id, 0x1234);
}
