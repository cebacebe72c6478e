use boulder_drivers::drivernet::blacklab_observer::{
    ledger_event, ledger_kind, BlackLabDriverObserver, BlackLabObserverFault, EventLedger,
    LedgerEvent, LedgerEventKind, OracleEvent, TemporalMesh,
};
use boulder_drivers::drivernet::brokers::{firmware_evidence, inspected_transaction, QuarantineBroker};
use boulder_drivers::drivernet::dispatch::{
    ActivationReceipt, BackendFault, BackendTrace, DispatchError, DispatchStage, DriverDispatcher,
    DriverLease, DriverNetBackend, FaultCode, HealthReceipt, ProbeObservation, ProbeTransaction,
};
use boulder_drivers::drivernet::ecam::{
    CascadingConfigurationReader, EcamAccess, EcamConfigurationReader, EcamError, EcamWindow,
};
use boulder_drivers::drivernet::fingerprint::{
    fingerprint_inventory, fingerprint_root, legacy_selection, read_bar_evidence,
    read_capability_flags, read_extended_capability_flags, BarEvidence,
    ConfigurationTrace, FingerprintError, FirmwareFramebufferEvidence, FirmwareFramebufferKind,
    GpuFingerprint, PciConfigReader, PciFunctionAddress, TopologyEvidence,
    TopologyEvidenceProvider, BAR_64BIT, BAR_PRESENT, CAP_MSI, PCI_CLASS_DISPLAY,
    PCI_CONFIGURATION_DWORDS, PCI_SUBCLASS_VGA, TOPOLOGY_BOOT_DISPLAY,
    TOPOLOGY_FIRMWARE_FRAMEBUFFER, TOPOLOGY_IOMMU_ISOLATED, VENDOR_AMD, VENDOR_INTEL,
    VENDOR_NVIDIA,
};
use boulder_drivers::drivernet::inventory::{
    DisplayFunctionInventory, InventoryError, PciBusRange,
};
use boulder_drivers::drivernet::model::{
    CompatibilityOracle, DriverStrategy, ModelExpectation, OracleDecision, OracleError,
    OraclePolicy,
};
use boulder_drivers::drivernet::model_weights::ModelWeights;
use boulder_drivers::drivernet::platform::{IsolationReceipt, StrategyBroker};
use boulder_drivers::drivernet::registry::{
    ProbeStep, RegistryError, ShimDescriptor, ShimRegistry, PROBE_EVIDENCE_FIRMWARE_LEASE,
};
use boulder_drivers::drivernet::shims::{
    amd_display, amd_kms, hermes_nvidia, intel_kms, quarantine, vesa_fb,
};
use boulder_drivers::drivernet::telemetry::{
    DriverNetEvent, DriverNetEventKind, DriverNetObserver, NullObserver, ObserverTrace,
};
use boulder_drivers::drivernet::topology::{BootTopologyTable, TopologyRecord, TopologyTableError};
use boulder_drivers::drivernet::{
    DriverNet, DriverNetError, DriverNetScratch, DriverNetSecrets, GpuResolutionStatus,
};
use std::cell::Cell;

struct Backend {
    tick: u64,
    healthy: bool,
    rollbacks: u32,
}

impl Backend {
    fn new() -> Self {
        Backend {
            tick: 1,
            healthy: true,
            rollbacks: 0,
        }
    }

    fn advance(&mut self) -> u64 {
        self.tick = self.tick.saturating_add(1);
        self.tick
    }
}

impl DriverNetBackend for Backend {
    fn now_tick(&mut self) -> u64 {
        self.tick
    }

    fn begin(
        &mut self,
        fingerprint: &GpuFingerprint,
        descriptor: &ShimDescriptor,
        _decision: &OracleDecision,
    ) -> Result<ProbeTransaction, BackendFault> {
        let tick = self.advance();
        Ok(ProbeTransaction {
            token: tick,
            fingerprint_root: fingerprint.evidence_root,
            strategy: descriptor.strategy,
            started_tick: tick,
            deadline_tick: tick.saturating_add(10_000),
            evidence_mask: 0,
            observation_root: tick,
            firmware_preserved: true,
            backend_state: [0; 8],
        })
    }

    fn probe_step(
        &mut self,
        _transaction: &mut ProbeTransaction,
        _fingerprint: &GpuFingerprint,
        _descriptor: &ShimDescriptor,
        step: ProbeStep,
        _attempt: u8,
    ) -> Result<ProbeObservation, BackendFault> {
        let tick = self.advance();
        Ok(ProbeObservation {
            semantic: step.semantic,
            evidence_bit: step.evidence_bit,
            value: 1,
            tick,
            root: tick,
        })
    }

    fn activate(
        &mut self,
        _transaction: &mut ProbeTransaction,
        _fingerprint: &GpuFingerprint,
        descriptor: &ShimDescriptor,
    ) -> Result<ActivationReceipt, BackendFault> {
        let tick = self.advance();
        Ok(ActivationReceipt {
            token: tick,
            strategy: descriptor.strategy,
            activation_epoch: tick,
            transport_root: tick,
            framebuffer_object: if descriptor.strategy == DriverStrategy::FirmwareFramebuffer {
                99
            } else {
                0
            },
            backend_state: [0; 8],
        })
    }

    fn health_check(
        &mut self,
        _transaction: &mut ProbeTransaction,
        activation: &ActivationReceipt,
        _descriptor: &ShimDescriptor,
    ) -> Result<HealthReceipt, BackendFault> {
        let tick = self.advance();
        Ok(HealthReceipt {
            healthy: self.healthy || activation.strategy == DriverStrategy::Quarantine,
            tick,
            heartbeat: tick,
            fault_mask: 0,
            root: tick,
        })
    }

    fn commit(
        &mut self,
        transaction: &mut ProbeTransaction,
        activation: &ActivationReceipt,
        health: &HealthReceipt,
        decision: &OracleDecision,
    ) -> Result<DriverLease, BackendFault> {
        let tick = self.advance();
        Ok(DriverLease {
            handle: tick,
            generation: 1,
            strategy: transaction.strategy,
            fingerprint_root: transaction.fingerprint_root,
            decision_root: decision.decision_root,
            activation_root: activation.transport_root,
            health_root: health.root,
            framebuffer_object: activation.framebuffer_object,
            committed_tick: tick,
        })
    }

    fn rollback(
        &mut self,
        _transaction: &mut ProbeTransaction,
        _stage: DispatchStage,
        _fault: BackendFault,
    ) -> Result<(), BackendFault> {
        self.advance();
        self.rollbacks += 1;
        Ok(())
    }
}

fn model() -> ModelWeights {
    ModelWeights {
        schema: 1,
        corpus_root: 2,
        model_root: 3,
        weights: [[0; 24]; 7],
        bias: [0; 7],
        feature_center: [0; 24],
        feature_scale: [256; 24],
        minimum_margin: [1; 7],
    }
}

fn stand_in(strategy: DriverStrategy, name: &'static str, vendor_id: u16) -> ShimDescriptor {
    let mut descriptor = amd_display::descriptor();
    descriptor.strategy = strategy;
    descriptor.name = name;
    descriptor.vendor_gate.vendor_id = vendor_id;
    descriptor
}

fn hermes() -> ShimDescriptor {
    stand_in(DriverStrategy::HermesNvidia, "hermes-nvidia", VENDOR_NVIDIA)
}

fn intel() -> ShimDescriptor {
    stand_in(DriverStrategy::IntelDisplay, "intel-display", VENDOR_INTEL)
}

fn registry() -> ShimRegistry {
    ShimRegistry::black_lab(hermes(), intel()).ok().unwrap()
}

fn oracle(secret: u64) -> CompatibilityOracle {
    CompatibilityOracle::new(secret, OraclePolicy::black_lab(), model())
        .ok()
        .unwrap()
}

fn gop(retained: bool) -> FirmwareFramebufferEvidence {
    FirmwareFramebufferEvidence {
        kind: FirmwareFramebufferKind::UefiGop,
        physical_address: 0xe000_0000,
        width: 1920,
        height: 1080,
        pitch: 7680,
        format: 1,
        byte_length: 8_294_400,
        owner: None,
        retained,
    }
}

fn firmware_fingerprint() -> GpuFingerprint {
    let mut fingerprint = GpuFingerprint::empty();
    fingerprint.firmware_framebuffer = gop(true);
    fingerprint.topology_flags = TOPOLOGY_FIRMWARE_FRAMEBUFFER;
    fingerprint.evidence_root = 7;
    fingerprint
}

#[test]
fn distinct_oracle_and_dispatch_secrets_resolve_safely() {
    let oracle_secret = 11;
    let dispatch_secret = 22;
    let fingerprint = firmware_fingerprint();
    let oracle = oracle(oracle_secret);
    let decision = oracle.classify(&fingerprint).ok().unwrap();
    let registry = registry();
    let mut dispatcher = DriverDispatcher::new(
        dispatch_secret,
        oracle_secret,
        ModelExpectation::compiled(&model()),
    )
    .ok()
    .unwrap();
    let mut backend = BackendTrace::new(Backend::new());

    let resolution = dispatcher
        .resolve(&fingerprint, &decision, &registry, &mut backend)
        .ok()
        .unwrap();

    assert_eq!(
        resolution.active_strategy,
        DriverStrategy::FirmwareFramebuffer
    );
    assert_eq!(resolution.lease.framebuffer_object, 99);
    assert!(resolution.verify(dispatch_secret));
    assert!(!resolution.verify(dispatch_secret + 1));
}

#[test]
fn wrong_oracle_secret_is_rejected_before_hardware_work() {
    let fingerprint = firmware_fingerprint();
    let oracle = oracle(11);
    let decision = oracle.classify(&fingerprint).ok().unwrap();
    let registry = registry();
    let mut dispatcher =
        DriverDispatcher::new(22, 33, ModelExpectation::compiled(&model()))
            .ok()
            .unwrap();
    let mut backend = BackendTrace::new(Backend::new());

    assert!(matches!(
        dispatcher.resolve(&fingerprint, &decision, &registry, &mut backend),
        Err(DispatchError::CorruptDecision)
    ));
    assert_eq!(backend.backend.tick, 1);
}

#[test]
fn an_unhealthy_backend_is_rolled_back_to_the_next_strategy() {
    let fingerprint = firmware_fingerprint();
    let oracle = oracle(11);
    let decision = oracle.classify(&fingerprint).ok().unwrap();
    let registry = registry();
    let mut dispatcher =
        DriverDispatcher::new(22, 11, ModelExpectation::compiled(&model()))
            .ok()
            .unwrap();
    let mut backend = Backend::new();
    backend.healthy = false;
    let mut trace = BackendTrace::new(backend);
    let resolution = dispatcher
        .resolve(&fingerprint, &decision, &registry, &mut trace)
        .ok()
        .unwrap();
    assert_eq!(resolution.active_strategy, DriverStrategy::Quarantine);
    assert_eq!(trace.backend.rollbacks, 1);
    assert_eq!(dispatcher.totals(), (1, 1));
}

struct Access;

impl EcamAccess for Access {
    fn read_u32(&mut self, physical_address: u64) -> Result<u32, EcamError> {
        Ok(physical_address as u32)
    }
}

#[test]
fn computes_segment_relative_ecam_addresses() {
    let window = EcamWindow {
        segment: 2,
        bus_start: 0x40,
        bus_end: 0x4f,
        physical_base: 0x8000_0000,
    };
    let address = PciFunctionAddress {
        segment: 2,
        bus: 0x42,
        slot: 3,
        function: 5,
    };

    assert_eq!(
        window.physical_address(address, 0x100).unwrap(),
        0x8021_d100
    );
}

#[test]
fn rejects_overlapping_windows_in_one_segment() {
    let mut reader = EcamConfigurationReader::<4, Access>::new(Access)
        .ok()
        .unwrap();
    reader
        .insert(EcamWindow {
            segment: 0,
            bus_start: 0,
            bus_end: 63,
            physical_base: 0x8000_0000,
        })
        .unwrap();

    assert_eq!(
        reader.insert(EcamWindow {
            segment: 0,
            bus_start: 32,
            bus_end: 95,
            physical_base: 0x9000_0000,
        }),
        Err(EcamError::OverlappingWindow)
    );
}

#[test]
fn a_window_reads_what_lies_in_it() {
    let mut reader = EcamConfigurationReader::<1, Access>::new(Access)
        .ok()
        .unwrap();
    let window = EcamWindow {
        segment: 0,
        bus_start: 0,
        bus_end: 1,
        physical_base: 0x8000_0000,
    };
    reader.insert(window).unwrap();
    let inside = PciFunctionAddress {
        segment: 0,
        bus: 1,
        slot: 0,
        function: 0,
    };
    assert_eq!(reader.read_u32(inside, 4), Ok(0x8010_0004));
    let outside = PciFunctionAddress { bus: 2, ..inside };
    assert_eq!(
        reader.window_for(outside),
        Err(EcamError::AddressOutsideWindow)
    );
    assert_eq!(
        reader.insert(EcamWindow {
            bus_start: 4,
            bus_end: 5,
            ..window
        }),
        Err(EcamError::Capacity)
    );
    assert!(matches!(
        EcamConfigurationReader::<0, Access>::new(Access).err(),
        Some(EcamError::ZeroCapacity)
    ));
}

struct Counted {
    limit: u16,
    answer: Result<u32, FingerprintError>,
    reads: Cell<u32>,
}

impl PciConfigReader for &Counted {
    fn maximum_offset(&mut self) -> u16 {
        self.limit
    }

    fn read_u32(
        &mut self,
        _address: PciFunctionAddress,
        _offset: u16,
    ) -> Result<u32, FingerprintError> {
        self.reads.set(self.reads.get() + 1);
        self.answer
    }
}

#[test]
fn the_second_reader_is_asked_only_where_the_first_cannot_reach() {
    let address = PciFunctionAddress {
        segment: 0,
        bus: 1,
        slot: 0,
        function: 0,
    };
    for (answer, expected, fallbacks) in [
        (Ok(1), Ok(1), 0),
        (
            Err(FingerprintError::ConfigurationRead),
            Err(FingerprintError::ConfigurationRead),
            0,
        ),
        (Err(FingerprintError::UnsupportedPciSegment), Ok(2), 1),
        (Err(FingerprintError::UnsupportedConfigurationOffset), Ok(2), 1),
    ] {
        let first = Counted {
            limit: 0xff,
            answer,
            reads: Cell::new(0),
        };
        let second = Counted {
            limit: 0xfff,
            answer: Ok(2),
            reads: Cell::new(0),
        };
        let mut reader = CascadingConfigurationReader::new(&first, &second);
        assert_eq!(reader.maximum_offset(), 0xfff);
        assert_eq!(reader.read_u32(address, 4), expected);
        assert_eq!(first.reads.get(), 1);
        assert_eq!(second.reads.get(), fallbacks);
    }
}

struct MockConfig {
    words: [u32; PCI_CONFIGURATION_DWORDS],
}

impl PciConfigReader for MockConfig {
    fn maximum_offset(&mut self) -> u16 {
        0x00ff
    }

    fn read_u32(
        &mut self,
        _address: PciFunctionAddress,
        offset: u16,
    ) -> Result<u32, FingerprintError> {
        Ok(self.words[usize::from(offset / 4)])
    }
}

const MOCK_ADDRESS: PciFunctionAddress = PciFunctionAddress {
    segment: 0,
    bus: 0,
    slot: 1,
    function: 0,
};

#[test]
fn capability_walk_is_bounded_and_detects_msi() {
    let mut words = [0_u32; PCI_CONFIGURATION_DWORDS];
    words[0x34 / 4] = 0x40;
    words[0x40 / 4] = 0x0000_0005;
    let mut config = ConfigurationTrace::new(MockConfig { words });
    let flags = read_capability_flags(MOCK_ADDRESS, 1 << 4, &mut config).unwrap();
    assert_eq!(flags & CAP_MSI, CAP_MSI);
}

#[test]
fn capability_cycle_is_rejected() {
    let mut words = [0_u32; PCI_CONFIGURATION_DWORDS];
    words[0x34 / 4] = 0x40;
    words[0x40 / 4] = 0x0000_4005;
    let mut config = ConfigurationTrace::new(MockConfig { words });
    assert_eq!(
        read_capability_flags(MOCK_ADDRESS, 1 << 4, &mut config),
        Err(FingerprintError::CapabilityCycle)
    );
}

#[test]
fn firmware_evidence_requires_retention() {
    let evidence = FirmwareFramebufferEvidence {
        kind: FirmwareFramebufferKind::UefiGop,
        physical_address: 0,
        width: 1920,
        height: 1080,
        pitch: 7680,
        format: 1,
        byte_length: 8_294_400,
        owner: None,
        retained: false,
    };
    assert!(!evidence.usable());
}

#[test]
fn bars_are_read_with_their_flags() {
    let mut words = [0_u32; PCI_CONFIGURATION_DWORDS];
    words[4] = 0x8000_0004;
    words[5] = 1;
    let mut config = ConfigurationTrace::new(MockConfig { words });
    let bars = read_bar_evidence(MOCK_ADDRESS, &mut config, [4096, 0, 0, 0, 0, 0]).unwrap();
    assert_eq!(bars[0].raw_high, 1);
    assert_eq!(bars[0].length, 4096);
    assert_eq!(bars[0].flags & BAR_64BIT, BAR_64BIT);
    assert_eq!(bars[1], BarEvidence::empty());
}

#[test]
fn legacy_access_stays_in_segment_zero() {
    assert_eq!(
        legacy_selection(
            PciFunctionAddress {
                segment: 1,
                ..MOCK_ADDRESS
            },
            0
        ),
        Err(FingerprintError::UnsupportedPciSegment)
    );
    assert_eq!(
        legacy_selection(MOCK_ADDRESS, 2),
        Err(FingerprintError::UnalignedConfigurationOffset)
    );
    assert_eq!(legacy_selection(MOCK_ADDRESS, 8).unwrap().1, 8);
}

#[test]
fn a_fingerprint_root_follows_its_secret() {
    let fingerprint = firmware_fingerprint();
    assert_eq!(
        fingerprint_root(3, &fingerprint),
        fingerprint_root(3, &fingerprint)
    );
    assert_ne!(
        fingerprint_root(3, &fingerprint),
        fingerprint_root(4, &fingerprint)
    );
}

struct Configuration {
    vendor_device: u32,
    class_revision: u32,
    header: u32,
}

impl PciConfigReader for Configuration {
    fn maximum_offset(&mut self) -> u16 {
        0x0fff
    }

    fn read_u32(
        &mut self,
        address: PciFunctionAddress,
        offset: u16,
    ) -> Result<u32, FingerprintError> {
        match offset {
            0x00 if address.slot == 0 => Ok(self.vendor_device),
            0x00 => Ok(u32::MAX),
            0x08 => Ok(self.class_revision),
            0x0c => Ok(self.header),
            0x3c => Ok(0x0000_010b),
            _ => Ok(0),
        }
    }
}

fn nvidia_configuration() -> ConfigurationTrace<Configuration> {
    ConfigurationTrace::new(Configuration {
        vendor_device: 0x2206_10de,
        class_revision: 0x0300_0001,
        header: 0,
    })
}

#[test]
fn discovers_a_segmented_display_function() {
    let mut inventory = DisplayFunctionInventory::<4>::new().ok().unwrap();
    let mut configuration = nvidia_configuration();

    inventory
        .discover(
            &[PciBusRange {
                segment: 4,
                bus_start: 0x40,
                bus_end: 0x40,
            }],
            &mut configuration,
        )
        .unwrap();

    assert_eq!(inventory.len(), 1);
    assert_eq!(inventory.functions()[0].address.segment, 4);
}

#[test]
fn an_inventory_refuses_bad_ranges_and_duplicates() {
    let mut inventory = DisplayFunctionInventory::<1>::new().ok().unwrap();
    let mut configuration = nvidia_configuration();
    assert_eq!(
        inventory.discover(
            &[PciBusRange {
                segment: 0,
                bus_start: 2,
                bus_end: 1,
            }],
            &mut configuration,
        ),
        Err(InventoryError::InvalidRange)
    );
    inventory
        .discover(
            &[PciBusRange {
                segment: 0,
                bus_start: 0,
                bus_end: 0,
            }],
            &mut configuration,
        )
        .unwrap();
    let listed = inventory.functions()[0];
    assert_eq!(inventory.insert(listed), Err(InventoryError::DuplicateAddress));
    let mut other = listed;
    other.address.slot = 3;
    assert_eq!(inventory.insert(other), Err(InventoryError::Capacity));
    assert!(inventory.overflowed());
    assert!(matches!(
        DisplayFunctionInventory::<0>::new().err(),
        Some(InventoryError::ZeroCapacity)
    ));
}

fn native_fingerprint(vendor: u16) -> GpuFingerprint {
    let mut fingerprint = GpuFingerprint::empty();
    fingerprint.vendor_id = vendor;
    fingerprint.device_id = 1;
    fingerprint.class_code = 0x03;
    fingerprint.subclass = PCI_SUBCLASS_VGA;
    fingerprint.topology_flags = TOPOLOGY_IOMMU_ISOLATED;
    fingerprint.bars[0] = BarEvidence {
        raw_low: 0x1000_0004,
        raw_high: 0,
        length: 16 * 1024 * 1024,
        flags: BAR_PRESENT | BAR_64BIT,
    };
    fingerprint.evidence_root = 1;
    fingerprint
}

#[test]
fn hard_gate_prevents_cross_vendor_native_dispatch() {
    let oracle = oracle(7);
    let decision = oracle
        .classify(&native_fingerprint(VENDOR_AMD))
        .ok()
        .unwrap();

    let hermes = decision
        .candidates()
        .iter()
        .find(|candidate| candidate.strategy == DriverStrategy::HermesNvidia)
        .unwrap();
    assert!(!hermes.admissible);
    let amd = decision
        .candidates()
        .iter()
        .find(|candidate| candidate.strategy == DriverStrategy::AmdDisplay)
        .unwrap();
    assert!(amd.admissible);
}

#[test]
fn low_evidence_promotes_firmware_framebuffer() {
    let oracle = oracle(7);
    let mut fingerprint = GpuFingerprint::empty();
    fingerprint.class_code = PCI_CLASS_DISPLAY;
    fingerprint.firmware_framebuffer = FirmwareFramebufferEvidence {
        kind: FirmwareFramebufferKind::UefiGop,
        physical_address: 0,
        width: 1920,
        height: 1080,
        pitch: 7680,
        format: 1,
        byte_length: 8_294_400,
        owner: None,
        retained: true,
    };
    fingerprint.evidence_root = 1;

    let decision = oracle.classify(&fingerprint).ok().unwrap();
    assert_eq!(
        decision.candidates()[0].strategy,
        DriverStrategy::FirmwareFramebuffer
    );
    assert!(decision.verify(7, ModelExpectation::compiled(&model())));
    assert!(!decision.verify(8, ModelExpectation::compiled(&model())));
}

#[test]
fn an_oracle_refuses_no_secret_no_root_and_a_strange_model() {
    assert!(matches!(
        CompatibilityOracle::new(0, OraclePolicy::black_lab(), model()).err(),
        Some(OracleError::InvalidSecret)
    ));
    let mut expectation = ModelExpectation::compiled(&model());
    expectation.model_root ^= 1;
    assert!(matches!(
        CompatibilityOracle::new_with_expectation(
            7,
            OraclePolicy::black_lab(),
            expectation,
            model()
        )
        .err(),
        Some(OracleError::ModelAuthority)
    ));
    assert!(matches!(
        oracle(7).classify(&GpuFingerprint::empty()).err(),
        Some(OracleError::InvalidFingerprint)
    ));
}

#[test]
fn a_registry_holds_each_strategy_once() {
    assert!(matches!(
        ShimRegistry::black_lab(hermes(), hermes()).err(),
        Some(RegistryError::DuplicateStrategy)
    ));
    let mut unnamed = hermes();
    unnamed.name = "";
    assert!(matches!(
        ShimRegistry::black_lab(unnamed, intel()).err(),
        Some(RegistryError::InvalidDescriptor)
    ));
    let registry = registry();
    assert_eq!(
        registry
            .descriptor(DriverStrategy::Quarantine)
            .ok()
            .unwrap()
            .name,
        quarantine::descriptor().name
    );
}

#[test]
fn table_rejects_duplicate_addresses() {
    let mut table = BootTopologyTable::<4>::new().ok().unwrap();
    let record = TopologyRecord {
        address: PciFunctionAddress {
            segment: 0,
            bus: 0,
            slot: 2,
            function: 0,
        },
        evidence: TopologyEvidence {
            topology_flags: TOPOLOGY_BOOT_DISPLAY,
            ..TopologyEvidence::empty()
        },
    };

    table.insert(record).unwrap();
    assert_eq!(
        table.insert(record),
        Err(TopologyTableError::DuplicateAddress)
    );
}

#[test]
fn firmware_framebuffer_must_be_retained() {
    let mut table = BootTopologyTable::<4>::new().ok().unwrap();
    let firmware = FirmwareFramebufferEvidence {
        kind: FirmwareFramebufferKind::UefiGop,
        physical_address: 0xe000_0000,
        width: 1024,
        height: 768,
        pitch: 4096,
        format: 1,
        byte_length: 3_145_728,
        owner: None,
        retained: false,
    };

    assert_eq!(
        table.set_firmware_framebuffer(firmware),
        Err(TopologyTableError::InvalidFirmwareFramebuffer)
    );
}

#[test]
fn a_topology_table_gives_back_what_it_was_told() {
    let mut table = BootTopologyTable::<1>::new().ok().unwrap();
    table.set_firmware_framebuffer(gop(true)).unwrap();
    assert_eq!(table.firmware_framebuffer(), gop(true));
    let mut inventory = DisplayFunctionInventory::<1>::new().ok().unwrap();
    inventory
        .discover(
            &[PciBusRange {
                segment: 0,
                bus_start: 0,
                bus_end: 0,
            }],
            &mut nvidia_configuration(),
        )
        .unwrap();
    let function = inventory.functions()[0];
    table
        .insert(TopologyRecord {
            address: function.address,
            evidence: TopologyEvidence {
                iommu_group: 9,
                ..TopologyEvidence::empty()
            },
        })
        .unwrap();
    assert_eq!(table.evidence_for(&function).iommu_group, 9);
    let mut second = TopologyRecord {
        address: function.address,
        evidence: TopologyEvidence::empty(),
    };
    second.address.slot = 5;
    assert_eq!(table.insert(second), Err(TopologyTableError::Capacity));
}

#[test]
fn measuring_stops_at_a_misplaced_function() {
    let mut inventory = DisplayFunctionInventory::<2>::new().ok().unwrap();
    inventory
        .discover(
            &[PciBusRange {
                segment: 0,
                bus_start: 0,
                bus_end: 1,
            }],
            &mut nvidia_configuration(),
        )
        .unwrap();
    assert_eq!(inventory.len(), 2);
    let mut table = BootTopologyTable::<1>::new().ok().unwrap();
    table
        .insert(TopologyRecord {
            address: inventory.functions()[1].address,
            evidence: TopologyEvidence {
                segment: 9,
                ..TopologyEvidence::empty()
            },
        })
        .unwrap();
    let mut output = [GpuFingerprint::empty(), GpuFingerprint::empty()];
    output[1].evidence_root = 77;
    let stopped = fingerprint_inventory(
        &inventory,
        &mut nvidia_configuration(),
        &table,
        3,
        &mut output,
    );
    assert_eq!(stopped.err(), Some(FingerprintError::InvalidHeader));
    assert_eq!(output[0].vendor_id, VENDOR_NVIDIA);
    assert_eq!(output[0].evidence_root, fingerprint_root(3, &output[0]));
    let mut untouched = GpuFingerprint::empty();
    untouched.evidence_root = 77;
    assert_eq!(output[1], untouched);
    assert_eq!(
        fingerprint_inventory(&inventory, &mut nvidia_configuration(), &table, 3, &mut []).err(),
        Some(FingerprintError::OutputCapacity)
    );
}

struct Looping {
    reads: Cell<u32>,
    limits: Cell<u32>,
}

impl PciConfigReader for &Looping {
    fn maximum_offset(&mut self) -> u16 {
        self.limits.set(self.limits.get() + 1);
        0x0fff
    }

    fn read_u32(
        &mut self,
        _address: PciFunctionAddress,
        offset: u16,
    ) -> Result<u32, FingerprintError> {
        self.reads.set(self.reads.get() + 1);
        let next = if offset == 0x0104 { 0x0100 } else { offset + 4 };
        Ok((u32::from(next) << 20) | 0x0001)
    }
}

#[test]
fn an_extended_walk_reads_each_offset_once() {
    let reader = Looping {
        reads: Cell::new(0),
        limits: Cell::new(0),
    };
    let address = PciFunctionAddress {
        segment: 0,
        bus: 0,
        slot: 0,
        function: 0,
    };
    assert_eq!(
        read_extended_capability_flags(address, &mut ConfigurationTrace::new(&reader)),
        Err(FingerprintError::CapabilityCycle)
    );
    assert_eq!(reader.reads.get(), 2);
    assert_eq!(reader.limits.get(), 3);
}

fn secrets() -> DriverNetSecrets {
    DriverNetSecrets {
        fingerprint: 3,
        oracle: 5,
        dispatch: 7,
        telemetry: 9,
    }
}

#[test]
fn a_run_commits_the_firmware_display_of_an_empty_machine() {
    let mut net = DriverNet::new(
        secrets(),
        OraclePolicy::black_lab(),
        model(),
        hermes(),
        intel(),
    )
    .ok()
    .unwrap();
    let inventory = DisplayFunctionInventory::<4>::new().ok().unwrap();
    let mut table = BootTopologyTable::<4>::new().ok().unwrap();
    table.set_firmware_framebuffer(gop(true)).unwrap();
    let mut backend = BackendTrace::new(Backend::new());
    let mut observer = ObserverTrace::new(NullObserver::new());
    let mut scratch = DriverNetScratch::new();
    let summary = net
        .resolve_all(
            &inventory,
            &mut nvidia_configuration(),
            &table,
            &mut backend,
            &mut observer,
            &mut scratch,
        )
        .ok()
        .unwrap();
    assert!(summary.display_available);
    assert_eq!(summary.firmware_count, 1);
    assert_eq!(summary.resolutions().len(), 1);
    let primary = summary.primary().unwrap();
    assert_eq!(primary.strategy, DriverStrategy::FirmwareFramebuffer);
    assert_eq!(primary.status, GpuResolutionStatus::Committed);
    assert!(summary.verify(7));
    assert!(!summary.verify(8));
}

#[test]
fn a_run_needs_its_secrets() {
    let mut none = secrets();
    none.telemetry = 0;
    assert!(matches!(
        DriverNet::new(none, OraclePolicy::black_lab(), model(), hermes(), intel()).err(),
        Some(DriverNetError::InvalidSecrets)
    ));
}

#[test]
fn a_run_needs_descriptors_of_the_free_strategies() {
    let mut unnamed = intel();
    unnamed.name = "";
    assert!(matches!(
        DriverNet::new(secrets(), OraclePolicy::black_lab(), model(), hermes(), unnamed).err(),
        Some(DriverNetError::Registry(RegistryError::InvalidDescriptor))
    ));
    assert!(matches!(
        DriverNet::new(secrets(), OraclePolicy::black_lab(), model(), intel(), intel()).err(),
        Some(DriverNetError::Registry(RegistryError::DuplicateStrategy))
    ));
    let net = DriverNet::new(
        secrets(),
        OraclePolicy::black_lab(),
        model(),
        hermes(),
        intel(),
    )
    .ok()
    .unwrap();
    let strategies: Vec<DriverStrategy> = net
        .registry()
        .descriptors()
        .iter()
        .map(|descriptor| descriptor.strategy)
        .collect();
    assert_eq!(
        strategies,
        vec![
            DriverStrategy::HermesNvidia,
            DriverStrategy::AmdDisplay,
            DriverStrategy::IntelDisplay,
            DriverStrategy::VirtioGpu,
            DriverStrategy::VirtualSvga,
            DriverStrategy::FirmwareFramebuffer,
            DriverStrategy::Quarantine,
        ]
    );
}

#[test]
fn sealed_events_verify_with_their_secret() {
    let mut event = DriverNetEvent::empty();
    event.data0 = 4;
    event.seal(9);
    assert!(event.verify(9));
    assert!(!event.verify(10));
    event.data0 = 5;
    assert!(!event.verify(9));
}

struct Ledger {
    refuse: Cell<bool>,
    appended: Cell<u32>,
}

impl EventLedger for &Ledger {
    type Refusal = u8;

    fn append(&mut self, _event: LedgerEvent) -> Result<(), u8> {
        self.appended.set(self.appended.get() + 1);
        if self.refuse.get() {
            Err(3)
        } else {
            Ok(())
        }
    }
}

struct Mesh;

impl TemporalMesh for Mesh {
    type Verdict = u64;
    type Refusal = u8;

    fn observe(&mut self, event: OracleEvent) -> Result<u64, u8> {
        Ok(event.tick)
    }
}

#[test]
fn an_observer_stops_at_its_first_fault() {
    let ledger = Ledger {
        refuse: Cell::new(false),
        appended: Cell::new(0),
    };
    let mut observer = BlackLabDriverObserver::new(&ledger, Mesh);
    let mut event = DriverNetEvent::empty();
    event.tick = 44;
    observer.observe(event);
    assert_eq!(observer.last_verdict(), Some(44));
    ledger.refuse.set(true);
    observer.observe(event);
    assert!(matches!(
        observer.last_fault(),
        Some(BlackLabObserverFault::Ledger(3))
    ));
    observer.observe(event);
    assert_eq!(observer.observed(), 3);
    assert_eq!(ledger.appended.get(), 2);
    observer.clear_fault();
    assert!(observer.last_fault().is_none());
}

#[test]
fn ledger_entries_carry_the_event() {
    assert_eq!(
        ledger_kind(DriverNetEventKind::Quarantine),
        LedgerEventKind::Quarantine
    );
    let mut event = DriverNetEvent::empty();
    event.tick = 8;
    event.data0 = 9;
    let entry = ledger_event(event);
    assert_eq!(entry.tick, 8);
    assert_eq!(entry.severity, event.severity);
}

#[test]
fn claims_name_the_vendor_they_refuse() {
    let nvidia = native_fingerprint(VENDOR_NVIDIA);
    let amd = native_fingerprint(VENDOR_AMD);
    let intel = native_fingerprint(VENDOR_INTEL);
    assert_eq!(amd_kms::arm(&amd), Ok(()));
    assert_eq!(amd_kms::arm(&intel), Err("not-amd"));
    assert_eq!(intel_kms::arm(&intel), Ok(()));
    assert_eq!(intel_kms::arm(&amd), Err("not-intel"));
    assert_eq!(vesa_fb::arm(&amd), Ok(()));
    assert_eq!(hermes_nvidia::arm(&amd), Err("not-nvidia"));
    assert_eq!(hermes_nvidia::arm(&nvidia), Ok(()));
    let mut audio = nvidia;
    audio.class_code = 4;
    assert_eq!(hermes_nvidia::arm(&audio), Err("not-display"));
}

#[test]
fn firmware_brokers_lease_what_was_inspected() {
    let fingerprint = firmware_fingerprint();
    assert!(inspected_transaction(&fingerprint, Ok((5, 6))).is_ok());
    let fault = BackendFault::new(FaultCode::ProbeFault, false, 1);
    assert_eq!(
        inspected_transaction(&fingerprint, Err(fault)).err(),
        Some(fault)
    );
    assert_eq!(
        firmware_evidence(
            boulder_drivers::drivernet::registry::ProbeSemantic::VerifyFirmwareLease
        ),
        Some(PROBE_EVIDENCE_FIRMWARE_LEASE)
    );
}

#[test]
fn quarantine_needs_a_secret_and_serves_quarantine() {
    assert!(QuarantineBroker::new(0).is_err());
    let mut broker = QuarantineBroker::new(4).ok().unwrap();
    assert_eq!(broker.strategy(), DriverStrategy::Quarantine);
    let transaction = broker.begin(
        &firmware_fingerprint(),
        &quarantine::descriptor(),
        IsolationReceipt {
            token: 1,
            domain: 2,
            firmware_preserved: true,
            root: 3,
        },
    );
    assert!(transaction.ok().unwrap().valid());
}
