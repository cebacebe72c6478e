use boulder_drivers::pci::PciAddress;
use boulder_drivers::xhci_dma::{
    DmaPlatform, DmaTrace, FrameAllocatorError, IdentityDmaError, IdentityDmaObservation,
    IdentityDmaWindow, XhciDmaArena, XhciDmaError, XhciDmaPurpose, XhciDmaQuiescence,
    XhciDmaRegionPhase, XhciDmaRegionToken, XhciDmaReleaseFault, XHCI_BASE_REGION_COUNT,
};
use std::collections::HashMap;

const RAM_PAGES: usize = 20;
const PAGE_SIZE: usize = 4096;
const DIRECT_MAP_BASE: usize = 0x10_0000;

struct Pool {
    free: Vec<u64>,
    memory: HashMap<usize, u8>,
    fill: u8,
}

impl Pool {
    fn new(first: u64, pages: usize, fill: u8) -> Self {
        Pool {
            free: (0..pages as u64)
                .map(|index| first + index * PAGE_SIZE as u64)
                .collect(),
            memory: HashMap::new(),
            fill,
        }
    }

    fn free_frames(&self) -> usize {
        self.free.len()
    }
}

impl DmaPlatform for Pool {
    fn allocate_contiguous(&mut self, page_count: usize) -> Option<u64> {
        let first = *self.free.iter().find(|start| {
            (0..page_count).all(|index| {
                self.free
                    .contains(&(**start + index as u64 * PAGE_SIZE as u64))
            })
        })?;
        let end = first + page_count as u64 * PAGE_SIZE as u64;
        self.free.retain(|frame| *frame < first || *frame >= end);
        Some(first)
    }

    fn release_contiguous(
        &mut self,
        physical: u64,
        page_count: usize,
    ) -> Result<(), FrameAllocatorError> {
        for index in 0..page_count {
            let frame = physical + index as u64 * PAGE_SIZE as u64;
            if self.free.contains(&frame) {
                return Err(FrameAllocatorError::DoubleFree);
            }
            self.free.push(frame);
        }
        self.free.sort();
        Ok(())
    }

    fn zero(&mut self, cpu_start: usize, bytes: usize) {
        for index in 0..bytes {
            self.memory.insert(cpu_start + index, 0);
        }
    }

    fn write_word(&mut self, cpu_address: usize, value: u64) {
        for (index, byte) in value.to_le_bytes().iter().enumerate() {
            self.memory.insert(cpu_address + index, *byte);
        }
    }

    fn write_byte(&mut self, cpu_address: usize, value: u8) {
        self.memory.insert(cpu_address, value);
    }

    fn read_byte(&mut self, cpu_address: usize) -> u8 {
        *self.memory.get(&cpu_address).unwrap_or(&self.fill)
    }
}

fn pool(usable_pages: usize, fill: u8) -> DmaTrace<Pool> {
    DmaTrace::new(Pool::new(PAGE_SIZE as u64, usable_pages, fill))
}

fn identity(physical_start: u64, physical_bytes: u64, device_limit: u64) -> IdentityDmaWindow {
    IdentityDmaWindow::establish(
        PciAddress::new(0, 5, 0).unwrap(),
        physical_start,
        physical_bytes,
        DIRECT_MAP_BASE,
        device_limit,
        7,
        0x1234,
        IdentityDmaObservation {
            x86_cache_coherent: true,
            requester_remapping_active: false,
        },
    )
    .unwrap()
}

fn whole() -> IdentityDmaWindow {
    identity(
        PAGE_SIZE as u64,
        (RAM_PAGES - 1) as u64 * PAGE_SIZE as u64,
        u64::MAX,
    )
}

fn quiescence() -> XhciDmaQuiescence {
    XhciDmaQuiescence::establish(PciAddress::new(0, 5, 0).unwrap(), 7, 0x5678).unwrap()
}

#[test]
fn allocates_four_base_pages_and_exact_scratchpad_storage_zeroed() {
    let mut pool = pool(RAM_PAGES - 1, 0xa5);
    let free_before = pool.platform.free_frames();
    let arena = XhciDmaArena::allocate(&mut pool, whole(), 2, true, 0xfeed).unwrap();
    assert_eq!(arena.region_count(), 6);
    assert_eq!(
        pool.platform.free_frames(),
        free_before - (XHCI_BASE_REGION_COUNT + 1 + 2)
    );
    for purpose in [
        XhciDmaPurpose::Dcbaa,
        XhciDmaPurpose::CommandRing,
        XhciDmaPurpose::EventRing,
        XhciDmaPurpose::EventRingSegmentTable,
    ] {
        assert_eq!(arena.region(purpose).unwrap().page_count, 1);
    }
    let array = arena
        .region(XhciDmaPurpose::ScratchpadPointerArray)
        .unwrap();
    let buffers = arena.region(XhciDmaPurpose::ScratchpadBuffers).unwrap();
    assert_eq!(buffers.page_count, 2);
    let mut pointer = [0_u8; 8];
    arena
        .read(
            arena.token(XhciDmaPurpose::Dcbaa).unwrap(),
            0,
            &mut pointer,
            &mut pool,
        )
        .unwrap();
    assert_eq!(u64::from_le_bytes(pointer), array.device_address_start);
    for index in 0..2 {
        arena
            .read(
                arena.token(XhciDmaPurpose::ScratchpadPointerArray).unwrap(),
                index * 8,
                &mut pointer,
                &mut pool,
            )
            .unwrap();
        assert_eq!(
            u64::from_le_bytes(pointer),
            buffers.device_address_start + index as u64 * PAGE_SIZE as u64
        );
    }
    let mut zero = [0xff_u8; 2];
    arena
        .read(
            arena.token(XhciDmaPurpose::CommandRing).unwrap(),
            PAGE_SIZE - 2,
            &mut zero,
            &mut pool,
        )
        .unwrap();
    assert_eq!(zero, [0, 0]);
    assert_ne!(arena.arena_root(), 0);
    let receipt = arena.release(quiescence(), &mut pool).unwrap();
    assert_eq!(receipt.released_pages, XHCI_BASE_REGION_COUNT + 1 + 2);
    assert_eq!(pool.platform.free_frames(), free_before);
}

#[test]
fn volatile_access_is_bounded_and_generation_checked() {
    let mut pool = pool(RAM_PAGES - 1, 0);
    let arena = XhciDmaArena::allocate(&mut pool, whole(), 0, true, 9).unwrap();
    let token = arena.token(XhciDmaPurpose::CommandRing).unwrap();
    assert_eq!(
        arena.write(token, PAGE_SIZE - 1, &[0x5a], &mut pool),
        Ok(())
    );
    let mut value = [0];
    assert_eq!(
        arena.read(token, PAGE_SIZE - 1, &mut value, &mut pool),
        Ok(())
    );
    assert_eq!(value, [0x5a]);
    assert_eq!(
        arena.write(token, PAGE_SIZE, &[1], &mut pool),
        Err(XhciDmaError::TransferOutsideRegion)
    );
    assert_eq!(
        arena.write(token, 0, &[], &mut pool),
        Err(XhciDmaError::EmptyTransfer)
    );
    let stale = XhciDmaRegionToken {
        generation: token.generation + 1,
        purpose: token.purpose,
    };
    assert_eq!(
        arena.read(stale, 0, &mut value, &mut pool),
        Err(XhciDmaError::StaleRegionToken)
    );
    arena.release(quiescence(), &mut pool).unwrap();
}

#[test]
fn partial_construction_rolls_back_every_frame() {
    let mut pool = pool(5, 0);
    let free_before = pool.platform.free_frames();
    let failure = match XhciDmaArena::allocate(
        &mut pool,
        identity(PAGE_SIZE as u64, 5 * PAGE_SIZE as u64, u64::MAX),
        1,
        true,
        11,
    ) {
        Ok(_) => panic!("undersized pool unexpectedly built the arena"),
        Err(failure) => failure,
    };
    assert_eq!(
        failure.cause(),
        XhciDmaError::FrameUnavailable(XhciDmaPurpose::ScratchpadBuffers)
    );
    assert!(!failure.has_release_debt());
    assert_eq!(pool.platform.free_frames(), free_before);
}

#[test]
fn non_ac64_rejects_frames_above_four_gibibytes_and_rolls_back() {
    let physical_start = u64::from(u32::MAX) + 1;
    let maximum = physical_start + 8 * PAGE_SIZE as u64;
    let mut pool = DmaTrace::new(Pool::new(physical_start, 8, 0));
    let free_before = pool.platform.free_frames();
    let failure = match XhciDmaArena::allocate(
        &mut pool,
        identity(physical_start, maximum - physical_start, u64::MAX),
        0,
        false,
        13,
    ) {
        Ok(_) => panic!("non-AC64 controller accepted high DMA frames"),
        Err(failure) => failure,
    };
    assert_eq!(
        failure.cause(),
        XhciDmaError::DeviceAddressLimit(XhciDmaPurpose::Dcbaa)
    );
    assert!(!failure.has_release_debt());
    assert_eq!(pool.platform.free_frames(), free_before);
}

#[test]
fn double_release_is_rejected_without_touching_the_pool_twice() {
    let mut pool = pool(RAM_PAGES - 1, 0);
    let free_before = pool.platform.free_frames();
    let mut arena = XhciDmaArena::allocate(&mut pool, whole(), 0, true, 17).unwrap();
    assert!(arena.release_records(&mut pool).is_ok());
    assert_eq!(pool.platform.free_frames(), free_before);
    assert_eq!(
        arena.release_records(&mut pool),
        Err(XhciDmaReleaseFault::AlreadyReleased)
    );
    assert_eq!(pool.platform.free_frames(), free_before);
}

#[test]
fn release_fault_retains_debt_and_every_unreleased_region() {
    let mut pool = pool(RAM_PAGES - 1, 0);
    let arena = XhciDmaArena::allocate(&mut pool, whole(), 0, true, 19).unwrap();
    let event = arena.region(XhciDmaPurpose::EventRing).unwrap();
    pool.platform
        .release_contiguous(event.physical_start, 1)
        .unwrap();
    let debt = arena.release(quiescence(), &mut pool).unwrap_err();
    assert_eq!(
        debt.fault(),
        XhciDmaReleaseFault::FrameAllocator {
            purpose: XhciDmaPurpose::EventRing,
            source: FrameAllocatorError::DoubleFree
        }
    );
    assert_eq!(
        debt.region(XhciDmaPurpose::EventRing).unwrap().phase,
        XhciDmaRegionPhase::ReleaseDebt
    );
    assert_eq!(
        debt.region(XhciDmaPurpose::CommandRing).unwrap().phase,
        XhciDmaRegionPhase::Ready
    );
    assert_eq!(
        debt.region(XhciDmaPurpose::Dcbaa).unwrap().phase,
        XhciDmaRegionPhase::Ready
    );
}

#[test]
fn identity_proof_rejects_coherency_and_remapping_shortcuts() {
    let address = PciAddress::new(0, 5, 0).unwrap();
    let base = PAGE_SIZE as u64;
    let common = |observation| {
        IdentityDmaWindow::establish(
            address,
            base,
            PAGE_SIZE as u64,
            0x1000,
            u64::MAX,
            1,
            1,
            observation,
        )
    };
    assert_eq!(
        common(IdentityDmaObservation {
            x86_cache_coherent: false,
            requester_remapping_active: false
        })
        .map(|_| ()),
        Err(IdentityDmaError::X86CoherencyUnproven)
    );
    assert_eq!(
        common(IdentityDmaObservation {
            x86_cache_coherent: true,
            requester_remapping_active: true
        })
        .map(|_| ()),
        Err(IdentityDmaError::ActiveRequesterRemapping)
    );
}

#[test]
fn a_debt_is_paid_once_the_pool_takes_the_frame() {
    let mut pool = pool(RAM_PAGES - 1, 0);
    let free_before = pool.platform.free_frames();
    let arena = XhciDmaArena::allocate(&mut pool, whole(), 0, true, 19).unwrap();
    let event = arena.region(XhciDmaPurpose::EventRing).unwrap();
    pool.platform
        .release_contiguous(event.physical_start, 1)
        .unwrap();
    let debt = arena.release(quiescence(), &mut pool).unwrap_err();
    pool.platform
        .free
        .retain(|frame| *frame != event.physical_start);
    assert!(debt.retry(quiescence(), &mut pool).is_ok());
    assert_eq!(pool.platform.free_frames(), free_before);
}

#[test]
fn a_stranger_cannot_release_an_arena() {
    let mut pool = pool(RAM_PAGES - 1, 0);
    let arena = XhciDmaArena::allocate(&mut pool, whole(), 0, true, 19).unwrap();
    let stranger =
        XhciDmaQuiescence::establish(PciAddress::new(0, 6, 0).unwrap(), 7, 0x5678).unwrap();
    let debt = arena.release(stranger, &mut pool).unwrap_err();
    assert_eq!(debt.fault(), XhciDmaReleaseFault::QuiescenceMismatch);
    assert_eq!(
        debt.region(XhciDmaPurpose::Dcbaa).unwrap().phase,
        XhciDmaRegionPhase::Ready
    );
}
