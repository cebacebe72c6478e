use boulder_drivers::drivernet::brokers::{
    FirmwareFramebufferBroker, FirmwareFramebufferHost, LabBroker, NativeBrokerAdapter,
    NativeStrategyHost, QuarantineBroker,
};
use boulder_drivers::drivernet::dispatch::{
    ActivationReceipt, BackendFault, BackendTrace, DispatchStage, DriverDispatcher, FaultCode,
    HealthReceipt, ProbeObservation,
};
use boulder_drivers::drivernet::fingerprint::{
    BarEvidence, FirmwareFramebufferEvidence, FirmwareFramebufferKind, GpuFingerprint, BAR_64BIT,
    BAR_PRESENT, PCI_SUBCLASS_VGA, TOPOLOGY_FIRMWARE_FRAMEBUFFER, TOPOLOGY_IOMMU_ISOLATED,
    VENDOR_AMD, VENDOR_INTEL, VENDOR_NVIDIA,
};
use boulder_drivers::drivernet::model::{
    CompatibilityOracle, DriverStrategy, ModelExpectation, OracleDecision, OraclePolicy,
};
use boulder_drivers::drivernet::model_weights::ModelWeights;
use boulder_drivers::drivernet::platform::{
    BlackLabDriverPlatform, BrokerTransaction, DeviceIsolationBroker, DriverNetClock,
    IsolationReceipt, PlatformError, StrategyBroker,
};
use boulder_drivers::drivernet::registry::{ProbeStep, ShimDescriptor, ShimRegistry};
use boulder_drivers::drivernet::shims::amd_display;
use boulder_drivers::seal::{mix, Sealer};
use std::cell::Cell;

struct Clock {
    tick: Cell<u64>,
}

impl DriverNetClock for &Clock {
    fn now_tick(&mut self) -> u64 {
        self.tick.set(self.tick.get() + 1);
        self.tick.get()
    }
}

struct Isolation {
    begun: Cell<u64>,
    committed: Cell<u64>,
    undone: Cell<u64>,
}

impl DeviceIsolationBroker for &Isolation {
    fn begin(
        &mut self,
        _fingerprint: &GpuFingerprint,
        _descriptor: &ShimDescriptor,
    ) -> Result<IsolationReceipt, BackendFault> {
        self.begun.set(self.begun.get() + 1);
        Ok(IsolationReceipt {
            token: 40 + self.begun.get(),
            domain: 2,
            firmware_preserved: true,
            root: 3,
        })
    }

    fn commit(&mut self, _receipt: IsolationReceipt) -> Result<(), BackendFault> {
        self.committed.set(self.committed.get() + 1);
        Ok(())
    }

    fn rollback(
        &mut self,
        _receipt: IsolationReceipt,
        _stage: DispatchStage,
        _fault: BackendFault,
    ) -> Result<(), BackendFault> {
        self.undone.set(self.undone.get() + 1);
        Ok(())
    }
}

struct Native {
    refuse_begin: bool,
    undone: Cell<u64>,
}

impl NativeStrategyHost for &Native {
    fn begin(
        &mut self,
        _strategy: DriverStrategy,
        _fingerprint: &GpuFingerprint,
        _descriptor: &ShimDescriptor,
        isolation: IsolationReceipt,
    ) -> Result<BrokerTransaction, BackendFault> {
        if self.refuse_begin {
            return Err(BackendFault::new(FaultCode::TransactionRejected, false, 1));
        }
        Ok(BrokerTransaction {
            token: isolation.token,
            state: [7; 8],
            root: 9,
        })
    }

    fn probe(
        &mut self,
        _strategy: DriverStrategy,
        transaction: BrokerTransaction,
        _fingerprint: &GpuFingerprint,
        _descriptor: &ShimDescriptor,
        _step: ProbeStep,
        _attempt: u8,
    ) -> (BrokerTransaction, Result<ProbeObservation, BackendFault>) {
        (
            transaction,
            Err(BackendFault::new(FaultCode::ProbeFault, false, 2)),
        )
    }

    fn activate(
        &mut self,
        _strategy: DriverStrategy,
        transaction: BrokerTransaction,
        _fingerprint: &GpuFingerprint,
        _descriptor: &ShimDescriptor,
        _isolation: IsolationReceipt,
    ) -> (BrokerTransaction, Result<ActivationReceipt, BackendFault>) {
        (
            transaction,
            Err(BackendFault::new(FaultCode::ProbeFault, false, 3)),
        )
    }

    fn health(
        &mut self,
        _strategy: DriverStrategy,
        transaction: BrokerTransaction,
        _activation: &ActivationReceipt,
        _descriptor: &ShimDescriptor,
    ) -> (BrokerTransaction, Result<HealthReceipt, BackendFault>) {
        (
            transaction,
            Err(BackendFault::new(FaultCode::ProbeFault, false, 4)),
        )
    }

    fn commit(
        &mut self,
        _strategy: DriverStrategy,
        transaction: BrokerTransaction,
        _activation: &ActivationReceipt,
        _health: &HealthReceipt,
        _decision: &OracleDecision,
    ) -> (BrokerTransaction, Result<(u64, u32), BackendFault>) {
        (
            transaction,
            Err(BackendFault::new(FaultCode::ProbeFault, false, 5)),
        )
    }

    fn rollback(
        &mut self,
        _strategy: DriverStrategy,
        transaction: BrokerTransaction,
        _stage: DispatchStage,
        _fault: BackendFault,
    ) -> (BrokerTransaction, Result<(), BackendFault>) {
        self.undone.set(self.undone.get() + 1);
        (transaction, Ok(()))
    }
}

struct Framebuffer {
    retained: Cell<u64>,
    released: Cell<u64>,
}

impl FirmwareFramebufferHost for &Framebuffer {
    fn now_tick(&mut self) -> u64 {
        77
    }

    fn inspect(&mut self, evidence: FirmwareFramebufferEvidence) -> Result<(u64, u64), BackendFault> {
        Ok((evidence.physical_address, 12))
    }

    fn retain(&mut self, object: u64) -> Result<(u64, u32), BackendFault> {
        self.retained.set(self.retained.get() + 1);
        Ok((object, 1))
    }

    fn release(&mut self, _object: u64) -> Result<(), BackendFault> {
        self.released.set(self.released.get() + 1);
        Ok(())
    }
}

struct Lab {
    clock: Clock,
    isolation: Isolation,
    native: Native,
    framebuffer: Framebuffer,
}

fn lab(refuse_begin: bool) -> Lab {
    Lab {
        clock: Clock { tick: Cell::new(0) },
        isolation: Isolation {
            begun: Cell::new(0),
            committed: Cell::new(0),
            undone: Cell::new(0),
        },
        native: Native {
            refuse_begin,
            undone: Cell::new(0),
        },
        framebuffer: Framebuffer {
            retained: Cell::new(0),
            released: Cell::new(0),
        },
    }
}

fn brokers(lab: &Lab) -> Vec<LabBroker<&Native, &Framebuffer>> {
    let mut brokers = vec![
        LabBroker::Firmware(FirmwareFramebufferBroker::new(&lab.framebuffer)),
        LabBroker::Quarantine(QuarantineBroker::new(5).ok().unwrap()),
    ];
    for strategy in [
        DriverStrategy::HermesNvidia,
        DriverStrategy::AmdDisplay,
        DriverStrategy::IntelDisplay,
        DriverStrategy::VirtioGpu,
        DriverStrategy::VirtualSvga,
    ] {
        brokers.push(LabBroker::Native(
            NativeBrokerAdapter::new(strategy, &lab.native).ok().unwrap(),
        ));
    }
    brokers
}

fn model() -> ModelWeights {
    let mut bias = [0; 7];
    bias[DriverStrategy::AmdDisplay.index()] = 1_000_000;
    ModelWeights {
        schema: 1,
        corpus_root: 2,
        model_root: 3,
        weights: [[0; 24]; 7],
        bias,
        feature_center: [0; 24],
        feature_scale: [256; 24],
        minimum_margin: [1; 7],
    }
}

fn eager() -> OraclePolicy {
    let mut policy = OraclePolicy::black_lab();
    policy.minimum_confidence_q16 = 0;
    policy
}

fn registry() -> ShimRegistry {
    let mut hermes = amd_display::descriptor();
    hermes.strategy = DriverStrategy::HermesNvidia;
    hermes.name = "hermes-nvidia";
    hermes.vendor_gate.vendor_id = VENDOR_NVIDIA;
    let mut intel = amd_display::descriptor();
    intel.strategy = DriverStrategy::IntelDisplay;
    intel.name = "intel-display";
    intel.vendor_gate.vendor_id = VENDOR_INTEL;
    ShimRegistry::black_lab(hermes, intel).ok().unwrap()
}

fn firmware(retained: bool) -> FirmwareFramebufferEvidence {
    FirmwareFramebufferEvidence {
        kind: FirmwareFramebufferKind::UefiGop,
        physical_address: 0xe000_0000,
        width: 1920,
        height: 1080,
        pitch: 7680,
        format: 1,
        byte_length: 8_294_400,
        owner: None,
        retained,
    }
}

fn firmware_fingerprint() -> GpuFingerprint {
    let mut fingerprint = GpuFingerprint::empty();
    fingerprint.firmware_framebuffer = firmware(true);
    fingerprint.topology_flags = TOPOLOGY_FIRMWARE_FRAMEBUFFER;
    fingerprint.evidence_root = 7;
    fingerprint
}

fn amd_fingerprint() -> GpuFingerprint {
    let mut fingerprint = firmware_fingerprint();
    fingerprint.vendor_id = VENDOR_AMD;
    fingerprint.device_id = 1;
    fingerprint.class_code = 3;
    fingerprint.subclass = PCI_SUBCLASS_VGA;
    fingerprint.topology_flags |= TOPOLOGY_IOMMU_ISOLATED;
    fingerprint.bars[0] = BarEvidence {
        raw_low: 0x1000_0004,
        raw_high: 0,
        length: 256 * 1024 * 1024,
        flags: BAR_PRESENT | BAR_64BIT,
    };
    fingerprint
}

fn resolve(lab: &Lab, fingerprint: &GpuFingerprint) -> (DriverStrategy, u64) {
    let oracle = CompatibilityOracle::new(11, eager(), model()).ok().unwrap();
    let decision = oracle.classify(fingerprint).ok().unwrap();
    let platform =
        BlackLabDriverPlatform::new(&lab.clock, &lab.isolation, brokers(lab), 13)
            .ok()
            .unwrap();
    let mut backend = BackendTrace::new(platform);
    let mut dispatcher =
        DriverDispatcher::new(22, 11, ModelExpectation::compiled(&model()))
            .ok()
            .unwrap();
    let resolution = dispatcher
        .resolve(fingerprint, &decision, &registry(), &mut backend)
        .ok()
        .unwrap();
    assert!(resolution.verify(22));
    (
        resolution.active_strategy,
        resolution.lease.framebuffer_object,
    )
}

#[test]
fn the_platform_commits_a_retained_framebuffer() {
    let lab = lab(false);
    assert_eq!(
        resolve(&lab, &firmware_fingerprint()),
        (DriverStrategy::FirmwareFramebuffer, 0xe000_0000)
    );
    assert_eq!(lab.isolation.begun.get(), 1);
    assert_eq!(lab.isolation.committed.get(), 1);
    assert_eq!(lab.isolation.undone.get(), 0);
    assert_eq!(lab.framebuffer.retained.get(), 1);
    assert_eq!(lab.framebuffer.released.get(), 0);
}

#[test]
fn a_failed_probe_is_undone_on_both_sides() {
    let lab = lab(false);
    let (strategy, _) = resolve(&lab, &amd_fingerprint());
    assert_eq!(strategy, DriverStrategy::FirmwareFramebuffer);
    assert_eq!(lab.native.undone.get(), 1);
    assert_eq!(lab.isolation.undone.get(), 1);
    assert_eq!(lab.isolation.committed.get(), 1);
}

#[test]
fn a_refused_begin_undoes_its_isolation_alone() {
    let lab = lab(true);
    let (strategy, _) = resolve(&lab, &amd_fingerprint());
    assert_eq!(strategy, DriverStrategy::FirmwareFramebuffer);
    assert_eq!(lab.native.undone.get(), 0);
    assert_eq!(lab.isolation.undone.get(), 1);
    assert_eq!(lab.isolation.begun.get(), 2);
}

#[test]
fn a_platform_needs_a_secret_and_each_broker_once() {
    let lab = lab(false);
    assert!(matches!(
        BlackLabDriverPlatform::new(&lab.clock, &lab.isolation, brokers(&lab), 0).err(),
        Some(PlatformError::InvalidSecret)
    ));
    let mut doubled = brokers(&lab);
    doubled[2] = LabBroker::Quarantine(QuarantineBroker::new(5).ok().unwrap());
    assert!(matches!(
        BlackLabDriverPlatform::new(&lab.clock, &lab.isolation, doubled, 13).err(),
        Some(PlatformError::DuplicateBroker)
    ));
    assert!(NativeBrokerAdapter::new(DriverStrategy::Quarantine, &lab.native).is_err());
}

#[test]
fn a_framebuffer_that_is_not_kept_is_not_brokered() {
    let lab = lab(false);
    let mut broker = FirmwareFramebufferBroker::new(&lab.framebuffer);
    let mut fingerprint = firmware_fingerprint();
    fingerprint.firmware_framebuffer = firmware(false);
    let receipt = IsolationReceipt {
        token: 1,
        domain: 2,
        firmware_preserved: true,
        root: 3,
    };
    let refused = broker.begin(&fingerprint, &amd_display::descriptor(), receipt);
    assert_eq!(
        refused.err(),
        Some(BackendFault::new(FaultCode::TransactionRejected, false, 7))
    );
}

#[test]
fn a_seal_tells_words_and_seeds_apart() {
    let root = |seed: u64, words: [u64; 2]| Sealer::new(seed).word(words[0]).word(words[1]).root();
    assert_eq!(root(1, [2, 3]), root(1, [2, 3]));
    assert_ne!(root(1, [2, 3]), root(1, [3, 2]));
    assert_ne!(root(1, [2, 3]), root(4, [2, 3]));
    assert_ne!(mix(1, 2), mix(1, 3));
    assert_ne!(mix(1, 2), mix(2, 2));
}
