use boulder_drivers::drivernet::fingerprint::{
    BarEvidence, GpuFingerprint, BAR_64BIT, BAR_PRESENT, TOPOLOGY_IOMMU_ISOLATED,
};
use boulder_drivers::hermes_abi::HermesPciIdentity;
use boulder_drivers::hermes_dma::{
    decode_handle, encode_handle, FrameBackedHermesDma, HermesDmaPlatform,
};
use boulder_drivers::hermes_gsp::{DmaPurpose, HermesFault, HermesPlatform};
use boulder_drivers::hermes_platform::{
    DmaAllocation, HermesDomainDmaService, HermesKernel, HermesKernelServices,
    HermesPlatformError, HermesPort, HermesServicePresence, KernelHermesPlatform, MmioMapping,
};
use boulder_drivers::pci::PciAddress;
use boulder_drivers::status::{STATUS_BUSY, STATUS_NOT_FOUND, STATUS_OK};
use boulder_drivers::xhci_iommu::{read_write, DmaAccess};
use std::collections::HashMap;

struct Kernel {
    fail_unmap: bool,
    domain_releases: usize,
    registers: HashMap<usize, u32>,
    clock: u64,
}

fn kernel() -> Kernel {
    Kernel {
        fail_unmap: false,
        domain_releases: 0,
        registers: HashMap::new(),
        clock: 1_000_000,
    }
}

impl HermesKernel for Kernel {
    fn isolate_device(&mut self, _device: PciAddress) -> Result<u64, i32> {
        Ok(7)
    }

    fn release_domain(&mut self, _domain: u64) -> i32 {
        self.domain_releases += 1;
        STATUS_OK
    }

    fn map(
        &mut self,
        _physical_address: u64,
        _length: usize,
        _flags: u64,
    ) -> Result<MmioMapping, i32> {
        Ok(MmioMapping {
            handle: 11,
            pointer: 0x8000,
        })
    }

    fn unmap(&mut self, _mapping: u64) -> i32 {
        if self.fail_unmap {
            STATUS_BUSY
        } else {
            STATUS_OK
        }
    }

    fn read_register(&mut self, address: usize) -> u32 {
        *self.registers.get(&address).unwrap_or(&0)
    }

    fn write_register(&mut self, address: usize, value: u32) {
        self.registers.insert(address, value);
    }

    fn register(&mut self, line: u32, _flags: u64) -> Result<u64, i32> {
        Ok(u64::from(line))
    }

    fn set_enabled(&mut self, _interrupt: u64, _enabled: bool) -> i32 {
        STATUS_OK
    }

    fn unregister(&mut self, _interrupt: u64) -> i32 {
        STATUS_OK
    }

    fn monotonic_ns(&mut self) -> u64 {
        self.clock
    }

    fn fence(&mut self) {}

    fn relax(&mut self) {}
}

struct Service {
    fail_release: bool,
    invalid_address: bool,
    taken: u64,
    keeps: Option<u64>,
    releases: Vec<u64>,
}

fn service() -> Service {
    Service {
        fail_release: false,
        invalid_address: false,
        taken: 0,
        keeps: None,
        releases: Vec::new(),
    }
}

impl HermesDomainDmaService for Service {
    fn supports(&mut self, _purpose: DmaPurpose) -> bool {
        true
    }

    fn allocate(
        &mut self,
        _domain: u64,
        _length: usize,
        _alignment: usize,
        _purpose: DmaPurpose,
    ) -> Result<DmaAllocation, i32> {
        self.taken += 1;
        Ok(DmaAllocation {
            handle: 11 + self.taken,
            cpu_pointer: 8,
            device_address: if self.invalid_address { 1 } else { 0x4000 },
        })
    }

    fn release(&mut self, _domain: u64, allocation: u64) -> i32 {
        self.releases.push(allocation);
        if self.fail_release || self.keeps == Some(allocation) {
            STATUS_BUSY
        } else {
            STATUS_OK
        }
    }

    fn write(&mut self, _allocation: u64, _offset: usize, _bytes: &[u8]) -> i32 {
        STATUS_OK
    }

    fn read(&mut self, _allocation: u64, _offset: usize, _bytes: &mut [u8]) -> i32 {
        STATUS_OK
    }

    fn publish(&mut self, _allocation: u64, _offset: usize, _length: usize) -> i32 {
        STATUS_OK
    }

    fn acquire(&mut self, _allocation: u64, _offset: usize, _length: usize) -> i32 {
        STATUS_OK
    }
}

fn fingerprint() -> GpuFingerprint {
    let mut fingerprint = GpuFingerprint::empty();
    fingerprint.segment = 0;
    fingerprint.bus = 1;
    fingerprint.slot = 2;
    fingerprint.function = 0;
    fingerprint.vendor_id = 0x10de;
    fingerprint.device_id = 0x1234;
    fingerprint.class_code = 3;
    fingerprint.topology_flags = TOPOLOGY_IOMMU_ISOLATED;
    fingerprint.interrupt_line = 5;
    fingerprint.interrupt_pin = 1;
    fingerprint.bars[0] = BarEvidence {
        raw_low: 0x8000_0004,
        raw_high: 0,
        length: 0x2000,
        flags: BAR_PRESENT | BAR_64BIT,
    };
    fingerprint
}

fn identity(fingerprint: &GpuFingerprint) -> HermesPciIdentity {
    HermesPciIdentity {
        segment: fingerprint.segment,
        bus: fingerprint.bus,
        slot: fingerprint.slot,
        function: fingerprint.function,
        revision: fingerprint.revision,
        vendor_id: fingerprint.vendor_id,
        device_id: fingerprint.device_id,
        subsystem_vendor_id: fingerprint.subsystem_vendor_id,
        subsystem_device_id: fingerprint.subsystem_device_id,
        class_code: fingerprint.class_code,
        subclass: fingerprint.subclass,
        programming_interface: fingerprint.programming_interface,
    }
}

const WITHOUT_INTERRUPTS: HermesServicePresence = HermesServicePresence {
    isolation: true,
    mmio: true,
    dma: true,
    irq: false,
};

fn platform(fingerprint: GpuFingerprint) -> KernelHermesPlatform<Kernel, Service> {
    KernelHermesPlatform::new(fingerprint, WITHOUT_INTERRUPTS, kernel(), service())
}

#[test]
fn service_visibility_is_exact() {
    let fingerprint = fingerprint();
    let mut platform = KernelHermesPlatform::new(
        fingerprint,
        HermesServicePresence {
            isolation: false,
            mmio: false,
            dma: false,
            irq: false,
        },
        kernel(),
        service(),
    );
    assert_eq!(
        platform.available_services(),
        HermesKernelServices {
            isolation: false,
            mmio: false,
            dma: false,
            irq: false,
            firmware_dma: false,
        }
    );
    assert_eq!(
        platform.acquire_domain(identity(&fingerprint)),
        Err(HermesPlatformError::MissingIsolationService)
    );
}

#[test]
fn mismatched_identity_and_bar_evidence_fail_closed() {
    let fingerprint = fingerprint();
    let mut first = platform(fingerprint);
    let mut wrong = identity(&fingerprint);
    wrong.device_id ^= 1;
    assert_eq!(
        first.acquire_domain(wrong),
        Err(HermesPlatformError::IdentityMismatch)
    );
    let domain = first.acquire_domain(identity(&fingerprint)).unwrap();
    assert_eq!(
        first.map_bar(domain, 0, 0x3000),
        Err(HermesPlatformError::BarEvidenceMismatch)
    );
    assert!(first.cleanup(domain).is_ok());

    let mut malformed = fingerprint;
    malformed.bars[0].raw_low &= !0x6;
    let mut second = platform(malformed);
    let domain = second.acquire_domain(identity(&malformed)).unwrap();
    assert_eq!(
        second.map_bar(domain, 0, 0x1000),
        Err(HermesPlatformError::BarEvidenceMismatch)
    );
    assert!(second.cleanup(domain).is_ok());
}

#[test]
fn failed_cleanup_preserves_leases_for_retry() {
    let fingerprint = fingerprint();
    let mut platform = platform(fingerprint);
    let domain = platform.acquire_domain(identity(&fingerprint)).unwrap();
    let bar = platform.map_bar(domain, 0, 0x1000).unwrap();
    let dma = platform
        .allocate_dma(domain, 4096, 4096, DmaPurpose::CommandRing)
        .unwrap();
    platform.trace.kernel.fail_unmap = true;
    platform.trace.dma.fail_release = true;

    let report = platform.cleanup(domain).unwrap_err();
    assert_eq!(report.pending_bars, 1);
    assert_eq!(report.pending_dma, 1);
    assert!(report.pending_domain);
    assert_eq!(platform.trace.kernel.domain_releases, 0);
    assert_eq!(
        platform.revoke_bar(bar.lease),
        Err(HermesPlatformError::Backend(STATUS_BUSY))
    );
    assert_eq!(
        platform.revoke_dma(dma.lease),
        Err(HermesPlatformError::Backend(STATUS_BUSY))
    );

    platform.trace.kernel.fail_unmap = false;
    platform.trace.dma.fail_release = false;
    assert!(platform.cleanup(domain).is_ok());
    assert_eq!(platform.trace.kernel.domain_releases, 1);
    assert_eq!(
        platform.revoke_bar(bar.lease),
        Err(HermesPlatformError::StaleLease)
    );
    assert_eq!(
        platform.revoke_dma(dma.lease),
        Err(HermesPlatformError::StaleLease)
    );
}

#[test]
fn a_cleanup_names_exactly_what_stays_and_the_next_one_asks_for_it_alone() {
    let fingerprint = fingerprint();
    let mut platform = platform(fingerprint);
    let domain = platform.acquire_domain(identity(&fingerprint)).unwrap();
    let bar = platform.map_bar(domain, 0, 0x1000).unwrap();
    let regions: Vec<_> = (0..3)
        .map(|_| {
            platform
                .allocate_dma(domain, 4096, 4096, DmaPurpose::CommandRing)
                .unwrap()
        })
        .collect();
    platform.trace.dma.keeps = Some(13);

    let report = platform.cleanup(domain).unwrap_err();
    assert_eq!(report.pending_dma, 0b010);
    assert_eq!(report.pending_bars, 0);
    assert!(!report.pending_irq);
    assert!(report.pending_domain);
    assert_eq!(platform.trace.dma.releases, vec![14, 13, 12]);
    assert_eq!(platform.trace.kernel.domain_releases, 0);
    assert_eq!(
        platform.revoke_bar(bar.lease),
        Err(HermesPlatformError::StaleLease)
    );
    assert_eq!(
        platform.revoke_dma(regions[0].lease),
        Err(HermesPlatformError::StaleLease)
    );

    platform.trace.dma.keeps = None;
    platform.trace.dma.releases.clear();
    assert!(platform.cleanup(domain).is_ok());
    assert_eq!(platform.trace.dma.releases, vec![13]);
    assert_eq!(platform.trace.kernel.domain_releases, 1);
    assert_eq!(
        platform.revoke_dma(regions[1].lease),
        Err(HermesPlatformError::StaleLease)
    );
}

#[test]
fn hermes_contract_rejects_forged_region_metadata_and_releases_exact_leases() {
    let fingerprint = fingerprint();
    let mut contract = HermesPort::new(platform(fingerprint));
    let domain = contract.isolate_device(identity(&fingerprint)).unwrap();
    let window = contract.map_bar(domain, 0, 0x1000).unwrap();
    let region = contract
        .allocate_dma(domain, 4096, 4096, DmaPurpose::CommandRing)
        .unwrap();
    let mut forged = region;
    forged.length += 4096;
    assert_eq!(
        contract.dma_publish(forged, 0, 4096),
        Err(HermesFault::DmaAccess)
    );
    assert_eq!(contract.now_tick(), 1_000_000);

    contract.release_dma(region);
    contract.unmap_bar(window);
    contract.release_domain(domain);
    assert_eq!(contract.kernel.trace.kernel.domain_releases, 1);
    assert!(contract.kernel.retry_cleanup().is_err());
}

#[test]
fn malformed_dma_receipt_is_quarantined_for_domain_cleanup() {
    let fingerprint = fingerprint();
    let mut platform = platform(fingerprint);
    platform.trace.dma.invalid_address = true;
    let domain = platform.acquire_domain(identity(&fingerprint)).unwrap();
    assert_eq!(
        platform.allocate_dma(domain, 4096, 4096, DmaPurpose::CommandRing),
        Err(HermesPlatformError::InvalidRequest)
    );
    assert!(platform.cleanup(domain).is_ok());
    assert_eq!(platform.trace.kernel.domain_releases, 1);
}

#[test]
fn leased_registers_are_written_and_read() {
    let fingerprint = fingerprint();
    let mut platform = platform(fingerprint);
    let domain = platform.acquire_domain(identity(&fingerprint)).unwrap();
    let bar = platform.map_bar(domain, 0, 0x1000).unwrap();
    assert_eq!(platform.write32(bar.lease, 8, 0x55aa), Ok(()));
    assert_eq!(platform.read32(bar.lease, 8), Ok(0x55aa));
    assert_eq!(platform.trace.kernel.registers.get(&0x8008), Some(&0x55aa));
    assert_eq!(
        platform.read32(bar.lease, 0x2000),
        Err(HermesPlatformError::InvalidRequest)
    );
    assert_eq!(
        platform.register_irq(domain),
        Err(HermesPlatformError::MissingIrqService)
    );
}

const RAM_PAGES: usize = 16;
const PAGE_SIZE: usize = 4096;
const NEVER_FAIL: usize = usize::MAX;
const DIRECT_MAP_BASE: usize = 0x10_0000;

struct Frames {
    free: Vec<u64>,
    iova_start: u64,
    iova_pages: u64,
    leases: HashMap<u64, (u64, u64)>,
    next_lease: u64,
    maps: usize,
    unmaps: usize,
    mapped_iovas: Vec<u64>,
    mapped_frames: Vec<u64>,
    unmapped_iovas: Vec<u64>,
    fail_map_at: usize,
    fail_unmap_at: usize,
    returns: usize,
    fail_return_at: usize,
    memory: HashMap<usize, u8>,
}

impl Frames {
    fn new(frames: Vec<u64>, iova_start: u64) -> Self {
        Frames {
            free: frames,
            iova_start,
            iova_pages: 32,
            leases: HashMap::new(),
            next_lease: 1,
            maps: 0,
            unmaps: 0,
            mapped_iovas: Vec::new(),
            mapped_frames: Vec::new(),
            unmapped_iovas: Vec::new(),
            fail_map_at: NEVER_FAIL,
            fail_unmap_at: NEVER_FAIL,
            returns: 0,
            fail_return_at: NEVER_FAIL,
            memory: HashMap::new(),
        }
    }

    fn free_frames(&self) -> usize {
        self.free.len()
    }
}

impl HermesDmaPlatform for Frames {
    fn allocate_frame(&mut self) -> Option<u64> {
        if self.free.is_empty() {
            None
        } else {
            Some(self.free.remove(0))
        }
    }

    fn release_frame(&mut self, frame: u64) -> bool {
        let call = self.returns;
        self.returns += 1;
        if self.fail_return_at == call {
            return false;
        }
        if self.free.contains(&frame) {
            return false;
        }
        self.free.push(frame);
        self.free.sort();
        true
    }

    fn reserve_iova(&mut self, pages: u64, alignment_pages: u64) -> Option<u64> {
        let page = PAGE_SIZE as u64;
        let end = self.iova_start + self.iova_pages * page;
        let mut start = self.iova_start;
        while start + pages * page <= end {
            let clear = self
                .leases
                .values()
                .all(|(taken, length)| start + pages * page <= *taken || taken + length <= start);
            if clear && start % (alignment_pages * page) == 0 {
                let lease = self.next_lease;
                self.next_lease += 1;
                self.leases.insert(lease, (start, pages * page));
                return Some(lease);
            }
            start += page;
        }
        None
    }

    fn iova_range(&mut self, lease: u64) -> Option<(u64, u64)> {
        self.leases.get(&lease).copied()
    }

    fn release_iova(&mut self, lease: u64) -> bool {
        self.leases.remove(&lease).is_some()
    }

    fn map_page(
        &mut self,
        domain: u64,
        device_address: u64,
        frame: u64,
        length: usize,
        access: DmaAccess,
    ) -> i32 {
        assert_eq!(domain, 7);
        assert_eq!(length, PAGE_SIZE);
        assert_eq!(access, read_write());
        assert_eq!(frame % PAGE_SIZE as u64, 0);
        let call = self.maps;
        self.maps += 1;
        self.mapped_iovas.push(device_address);
        self.mapped_frames.push(frame);
        if self.fail_map_at == call {
            STATUS_BUSY
        } else {
            STATUS_OK
        }
    }

    fn unmap_page(&mut self, domain: u64, device_address: u64, length: usize) -> i32 {
        assert_eq!(domain, 7);
        assert_eq!(length, PAGE_SIZE);
        let call = self.unmaps;
        self.unmaps += 1;
        self.unmapped_iovas.push(device_address);
        if self.fail_unmap_at == call {
            STATUS_BUSY
        } else {
            STATUS_OK
        }
    }

    fn zero_page(&mut self, address: usize) {
        for index in 0..PAGE_SIZE {
            self.memory.insert(address + index, 0);
        }
    }

    fn store(&mut self, address: usize, value: u8) {
        self.memory.insert(address, value);
    }

    fn load(&mut self, address: usize) -> u8 {
        *self.memory.get(&address).unwrap_or(&0xa5)
    }

    fn fence(&mut self) {}
}

fn service_over(frames: Vec<u64>, iova_start: u64) -> FrameBackedHermesDma<Frames> {
    FrameBackedHermesDma::new(
        Frames::new(frames, iova_start),
        RAM_PAGES as u64,
        true,
        DIRECT_MAP_BASE,
        (RAM_PAGES * PAGE_SIZE) as u64,
    )
    .ok()
    .unwrap()
}

fn whole() -> Vec<u64> {
    (1..RAM_PAGES as u64)
        .map(|frame| frame * PAGE_SIZE as u64)
        .collect()
}

fn fragmented() -> Vec<u64> {
    (1..RAM_PAGES as u64)
        .step_by(2)
        .map(|frame| frame * PAGE_SIZE as u64)
        .collect()
}

#[test]
fn binds_scattered_frames_to_contiguous_aligned_iova_and_rejects_stale_access() {
    let mut dma = service_over(fragmented(), 0x1000);
    let free_before = dma.trace.platform.free_frames();

    let allocation = dma
        .allocate(7, PAGE_SIZE + 17, 2 * PAGE_SIZE, DmaPurpose::CommandRing)
        .unwrap();
    assert_eq!(allocation.device_address % (2 * PAGE_SIZE) as u64, 0);
    assert_eq!(dma.trace.platform.free_frames(), free_before - 2);
    assert_eq!(dma.trace.platform.maps, 2);
    assert_eq!(
        dma.trace.platform.mapped_iovas[1] - dma.trace.platform.mapped_iovas[0],
        PAGE_SIZE as u64
    );
    assert_eq!(
        dma.trace.platform.mapped_frames[1] - dma.trace.platform.mapped_frames[0],
        2 * PAGE_SIZE as u64
    );
    assert_eq!(dma.active_allocation_count(), 1);
    let payload = [1_u8, 2, 3, 4];
    assert_eq!(dma.write(allocation.handle, PAGE_SIZE, &payload), STATUS_OK);
    assert_eq!(dma.publish(allocation.handle, PAGE_SIZE, 4), STATUS_OK);
    let mut observed = [0_u8; 4];
    assert_eq!(dma.acquire(allocation.handle, PAGE_SIZE, 4), STATUS_OK);
    assert_eq!(
        dma.read(allocation.handle, PAGE_SIZE, &mut observed),
        STATUS_OK
    );
    assert_eq!(observed, payload);
    assert_eq!(dma.release(7, allocation.handle), STATUS_OK);
    assert_eq!(dma.trace.platform.free_frames(), free_before);
    assert_eq!(
        dma.read(allocation.handle, 0, &mut observed),
        STATUS_NOT_FOUND
    );
}

#[test]
fn failed_unmap_retains_every_lease_for_exact_retry() {
    let mut dma = service_over(whole(), 0x1000);
    let free_before = dma.trace.platform.free_frames();
    let allocation = dma
        .allocate(7, 2 * PAGE_SIZE, PAGE_SIZE, DmaPurpose::EventRing)
        .unwrap();
    dma.trace.platform.fail_unmap_at = 0;
    assert_eq!(dma.release(7, allocation.handle), STATUS_BUSY);
    assert_eq!(dma.active_allocation_count(), 1);
    assert_eq!(dma.trace.platform.free_frames(), free_before - 2);
    assert_eq!(dma.release(7, allocation.handle), STATUS_OK);
    assert_eq!(dma.trace.platform.free_frames(), free_before);
    assert_eq!(dma.trace.platform.unmaps, 3);
    assert_eq!(
        dma.trace.platform.unmapped_iovas[0],
        allocation.device_address + PAGE_SIZE as u64
    );
    assert_eq!(
        dma.trace.platform.unmapped_iovas[1],
        allocation.device_address + PAGE_SIZE as u64
    );
    assert_eq!(
        dma.trace.platform.unmapped_iovas[2],
        allocation.device_address
    );
}

#[test]
fn a_release_that_the_pool_stopped_is_finished_by_the_next_one() {
    let mut dma = service_over(whole(), 0x1000);
    let free_before = dma.trace.platform.free_frames();
    let allocation = dma
        .allocate(7, 2 * PAGE_SIZE, PAGE_SIZE, DmaPurpose::EventRing)
        .unwrap();
    dma.trace.platform.fail_return_at = 1;
    assert_ne!(dma.release(7, allocation.handle), STATUS_OK);
    assert_eq!(dma.active_allocation_count(), 1);
    assert_eq!(dma.trace.platform.free_frames(), free_before - 1);
    assert_eq!(dma.trace.platform.unmaps, 2);

    assert_eq!(dma.release(7, allocation.handle), STATUS_OK);
    assert_eq!(dma.trace.platform.free_frames(), free_before);
    assert_eq!(dma.trace.platform.unmaps, 2);
    assert_eq!(dma.trace.platform.returns, 3);
    assert_eq!(dma.active_allocation_count(), 0);
    assert_eq!(dma.quarantined_allocation_count(), 0);
    assert_eq!(dma.release(7, allocation.handle), STATUS_NOT_FOUND);

    let next = dma
        .allocate(7, PAGE_SIZE, PAGE_SIZE, DmaPurpose::CommandRing)
        .unwrap();
    assert_eq!(dma.release(7, next.handle), STATUS_OK);
}

#[test]
fn failed_page_map_rolls_back_every_prior_mapping_and_frame() {
    let mut dma = service_over(fragmented(), 0x1000);
    dma.trace.platform.fail_map_at = 1;
    let free_before = dma.trace.platform.free_frames();

    assert!(matches!(
        dma.allocate(7, 3 * PAGE_SIZE, PAGE_SIZE, DmaPurpose::Firmware),
        Err(STATUS_BUSY)
    ));
    assert_eq!(dma.trace.platform.maps, 2);
    assert_eq!(dma.trace.platform.unmaps, 1);
    assert_eq!(dma.trace.platform.free_frames(), free_before);
    assert_eq!(dma.active_allocation_count(), 0);
    assert_eq!(dma.quarantined_allocation_count(), 0);
}

#[test]
fn failed_map_rollback_is_quarantined_then_reclaimed_before_reuse() {
    let mut dma = service_over(fragmented(), 0x1000);
    dma.trace.platform.fail_map_at = 1;
    dma.trace.platform.fail_unmap_at = 0;
    let free_before = dma.trace.platform.free_frames();

    assert!(matches!(
        dma.allocate(7, 3 * PAGE_SIZE, PAGE_SIZE, DmaPurpose::Firmware),
        Err(STATUS_BUSY)
    ));
    assert_eq!(dma.quarantined_allocation_count(), 1);
    assert_eq!(dma.trace.platform.free_frames(), free_before - 3);

    dma.trace.platform.fail_map_at = NEVER_FAIL;
    let replacement = dma
        .allocate(7, PAGE_SIZE, PAGE_SIZE, DmaPurpose::CommandRing)
        .unwrap();
    assert_eq!(dma.quarantined_allocation_count(), 0);
    assert_eq!(dma.active_allocation_count(), 1);
    assert_eq!(dma.trace.platform.free_frames(), free_before - 1);
    assert_eq!(dma.release(7, replacement.handle), STATUS_OK);
    assert_eq!(dma.trace.platform.free_frames(), free_before);
}

#[test]
fn kernel_platform_consumes_the_real_domain_bound_dma_service() {
    let mut fingerprint = GpuFingerprint::empty();
    fingerprint.segment = 0;
    fingerprint.bus = 1;
    fingerprint.slot = 2;
    fingerprint.function = 0;
    fingerprint.vendor_id = 0x10de;
    fingerprint.device_id = 0x1234;
    fingerprint.class_code = 3;
    let mut platform = KernelHermesPlatform::new(
        fingerprint,
        HermesServicePresence {
            isolation: true,
            mmio: false,
            dma: true,
            irq: false,
        },
        kernel(),
        service_over(whole(), 0x2000),
    );
    assert_eq!(
        platform.available_services(),
        HermesKernelServices {
            isolation: true,
            mmio: false,
            dma: true,
            irq: false,
            firmware_dma: true,
        }
    );

    let domain = platform.acquire_domain(identity(&fingerprint)).unwrap();
    let allocation = platform
        .allocate_dma(domain, 2 * PAGE_SIZE, PAGE_SIZE, DmaPurpose::CommandRing)
        .unwrap();
    platform
        .dma_write(allocation.lease, 0, &[0x48, 0x47, 0x53, 0x50])
        .unwrap();
    platform.revoke_dma(allocation.lease).unwrap();
    platform.cleanup(domain).unwrap();
    assert_eq!(platform.trace.dma.active_allocation_count(), 0);
}

#[test]
fn handles_name_a_slot_and_a_generation() {
    assert_eq!(decode_handle(encode_handle(3, 9)), Some((3, 9)));
    assert_ne!(encode_handle(3, 9), encode_handle(4, 9));
    assert_ne!(encode_handle(3, 9), encode_handle(3, 10));
    assert_eq!(decode_handle(0), None);
}

#[test]
fn a_service_needs_its_memory_mapped() {
    assert!(FrameBackedHermesDma::new(Frames::new(whole(), 0), 17, true, 0, 16 * 4096).is_err());
    assert!(FrameBackedHermesDma::new(Frames::new(whole(), 0), 16, false, 0, 16 * 4096).is_err());
}
