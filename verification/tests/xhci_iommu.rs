use boulder_drivers::pci::PciAddress;
use boulder_drivers::status::{STATUS_BUSY, STATUS_OK};
use boulder_drivers::xhci_dma::{XhciDmaPurpose, XhciDmaRegionPhase, XhciDmaRegionRecord};
use boulder_drivers::xhci_iommu::{
    bind_core_regions, read_write, DmaAccess, DmaMappingHandle, DomainTrace, IommuDomain,
    XhciIommuBindingError, XhciRingStorage,
};

const BASE_PURPOSES: [XhciDmaPurpose; 4] = [
    XhciDmaPurpose::Dcbaa,
    XhciDmaPurpose::CommandRing,
    XhciDmaPurpose::EventRing,
    XhciDmaPurpose::EventRingSegmentTable,
];

struct Backend {
    fail_unmap: bool,
    fail_map_at: Option<usize>,
    maps: usize,
    unmaps: usize,
    active: Vec<DmaMappingHandle>,
}

impl IommuDomain for Backend {
    fn map_dma_at(
        &mut self,
        device_address: u64,
        _physical_address: u64,
        length: usize,
        access: DmaAccess,
    ) -> Result<DmaMappingHandle, i32> {
        assert_eq!(access, read_write());
        if self.fail_map_at == Some(self.maps) {
            return Err(STATUS_BUSY);
        }
        self.maps += 1;
        let handle = DmaMappingHandle {
            device_address,
            length,
            generation: self.maps as u32,
        };
        self.active.push(handle);
        Ok(handle)
    }

    fn revoke_dma(&mut self, mapping: DmaMappingHandle) -> i32 {
        self.unmaps += 1;
        if self.fail_unmap {
            return STATUS_BUSY;
        }
        self.active.retain(|handle| *handle != mapping);
        STATUS_OK
    }
}

impl Backend {
    fn release(self) -> Result<(), usize> {
        if self.active.is_empty() {
            Ok(())
        } else {
            Err(self.active.len())
        }
    }
}

struct Storage {
    records: Vec<XhciDmaRegionRecord>,
}

impl Storage {
    fn ready(generation: u32) -> Self {
        let device = PciAddress::new(0, 4, 0).unwrap();
        Self {
            records: BASE_PURPOSES
                .iter()
                .enumerate()
                .map(|(index, purpose)| {
                    record(*purpose, device, generation, 0x1000 * (index as u64 + 1))
                })
                .collect(),
        }
    }

    fn with_scratchpads(generation: u32) -> Self {
        let device = PciAddress::new(0, 4, 0).unwrap();
        let mut storage = Self::ready(generation);
        storage.records.push(record(
            XhciDmaPurpose::ScratchpadPointerArray,
            device,
            generation,
            0x5000,
        ));
        storage.records.push(record(
            XhciDmaPurpose::ScratchpadBuffers,
            device,
            generation,
            0x6000,
        ));
        storage
    }
}

impl XhciRingStorage for Storage {
    fn region_of(&self, purpose: XhciDmaPurpose) -> Option<XhciDmaRegionRecord> {
        self.region(purpose)
    }

    fn region(&self, purpose: XhciDmaPurpose) -> Option<XhciDmaRegionRecord> {
        self.records
            .iter()
            .copied()
            .find(|record| record.purpose == purpose)
    }
}

fn record(
    purpose: XhciDmaPurpose,
    device: PciAddress,
    generation: u32,
    address: u64,
) -> XhciDmaRegionRecord {
    XhciDmaRegionRecord {
        phase: XhciDmaRegionPhase::Ready,
        generation,
        purpose,
        device,
        physical_start: address,
        physical_end: address + 4096,
        device_address_start: address,
        device_address_end: address + 4096,
        cpu_start: address as usize,
        cpu_end: address as usize + 4096,
        page_count: 1,
        region_root: address,
    }
}

fn domain() -> DomainTrace<Backend> {
    DomainTrace::new(Backend {
        fail_unmap: false,
        fail_map_at: None,
        maps: 0,
        unmaps: 0,
        active: Vec::new(),
    })
}

#[test]
fn exact_binding_maps_each_core_region_and_releases_every_receipt() {
    let mut domain = domain();
    let binding = bind_core_regions(&mut domain, &Storage::ready(7), 7, 0x5eed).unwrap();
    assert_eq!(binding.mapping_count(), 4);
    assert_ne!(binding.root(), 0);
    binding.revoke(&mut domain).unwrap();
    assert_eq!(domain.domain.maps, 4);
    assert_eq!(domain.domain.unmaps, 4);
    assert!(domain.domain.release().is_ok());
}

#[test]
fn failed_release_retains_all_unrevoked_receipts_for_retry() {
    let mut domain = domain();
    let binding = bind_core_regions(&mut domain, &Storage::ready(9), 9, 0x5eed).unwrap();
    domain.domain.fail_unmap = true;
    let debt = binding.revoke(&mut domain).unwrap_err();
    assert_eq!(debt.generation(), 9);
    domain.domain.fail_unmap = false;
    debt.retry(&mut domain).unwrap();
    assert_eq!(domain.domain.active.len(), 0);
    assert!(domain.domain.release().is_ok());
}

#[test]
fn complete_scratchpad_pair_is_bound_and_revoked_with_the_core_regions() {
    let mut domain = domain();
    let binding =
        bind_core_regions(&mut domain, &Storage::with_scratchpads(11), 11, 0x5eed).unwrap();
    assert_eq!(binding.mapping_count(), 6);
    binding.revoke(&mut domain).unwrap();
    assert_eq!(domain.domain.maps, 6);
    assert_eq!(domain.domain.unmaps, 6);
    assert!(domain.domain.release().is_ok());
}

#[test]
fn incomplete_scratchpad_pair_fails_before_any_mapping_is_created() {
    let mut domain = domain();
    let device = PciAddress::new(0, 4, 0).unwrap();
    let mut storage = Storage::ready(13);
    storage.records.push(record(
        XhciDmaPurpose::ScratchpadPointerArray,
        device,
        13,
        0x5000,
    ));
    let failure = bind_core_regions(&mut domain, &storage, 13, 0x5eed).unwrap_err();
    assert_eq!(
        failure.cause(),
        XhciIommuBindingError::MissingRegion(XhciDmaPurpose::ScratchpadBuffers)
    );
    assert!(!failure.has_release_debt());
    assert_eq!(domain.domain.maps, 0);
    assert!(domain.domain.release().is_ok());
}

#[test]
fn a_failed_mapping_undoes_those_before_it() {
    let mut domain = domain();
    domain.domain.fail_map_at = Some(2);
    let failure = bind_core_regions(&mut domain, &Storage::ready(7), 7, 0x5eed).unwrap_err();
    assert_eq!(failure.cause(), XhciIommuBindingError::Mapping(STATUS_BUSY));
    assert!(!failure.has_release_debt());
    assert!(domain.domain.active.is_empty());
    assert_eq!(
        bind_core_regions(&mut domain, &Storage::ready(7), 8, 0x5eed)
            .unwrap_err()
            .cause(),
        XhciIommuBindingError::GenerationMismatch {
            expected: 8,
            observed: 7
        }
    );
}
