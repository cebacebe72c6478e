use boulder_drivers::drivernet::fingerprint::{
    BarEvidence, GpuFingerprint, BAR_64BIT, BAR_IO, BAR_PRESENT, TOPOLOGY_IOMMU_ISOLATED,
};
use boulder_drivers::drivernet::model::DriverStrategy;
use boulder_drivers::gpu_abi::{
    GpuBarEvidence, GpuCompatibility, GpuCompatibilityManifest, GpuCompatibilityProof,
    GpuDeviceEvidence, GPU_BAR_IO, GPU_BAR_PRESENT, GPU_TOPOLOGY_IOMMU_ISOLATED,
};
use boulder_drivers::gpu_portability::{manifest_for, portable_evidence, HERMES_DRIVER_ID};
use boulder_drivers::hermes_abi::{
    HermesAdmissionCertificate, HermesAdmissionFault, HermesBootInstruction,
    HermesNormalizedCommand, HermesNormalizedEvent, HermesPciIdentity, HermesProbeEvidence,
    HermesServiceCurve, HermesTransportProfile, HERMES_BOOT_STAGE_IGNITE, HERMES_EVENT_ASYNC,
    HERMES_EVENT_FAULT, HERMES_EVENT_REPLY, HERMES_INSTRUCTION_BYTES,
    HERMES_MAX_NORMALIZED_PAYLOAD,
};
use boulder_drivers::hermes_gsp::{
    earlier_deadline, is_power_of_two, map_admission_fault, ring_bytes, tick_reached,
    usize_to_u32, validate_boot_instruction, validate_dma_region, validate_firmware,
    validate_identity, validate_mmio_access, validate_profile, validate_queue_publication,
    validate_ring_geometry, word_u16, word_u32, word_u8, DmaPurpose, DmaRegion, EventDisposition,
    FirmwareAuthority, FirmwareImage, FirmwareSeal, Hermes, HermesCodec, HermesDiscovery,
    HermesFault, HermesLease, HermesPlatform, HermesService, HermesTrace, MmioWindow, Online,
    PendingRequest, PendingTable, PersonalityRegistry, Profiled, Runtime, Staged, DMA_GRANULE,
    HERMES_BOOT_ASSERT32, HERMES_BOOT_DELAY, HERMES_BOOT_FENCE, HERMES_BOOT_RMW32,
    HERMES_BOOT_WRITE32, HERMES_OPCODE_NEGOTIATE, NVIDIA_VENDOR_ID, PCI_CLASS_DISPLAY,
};
use boulder_drivers::hermes_transport::{consensus, negotiation_fault, offered_wire, ring_slot};
use std::marker::PhantomData;

#[derive(Clone, Copy, Debug, Eq, PartialEq)]
enum FaultPoint {
    Nowhere,
    ShortBar,
    FirmwarePublish,
    CommandValidation,
    CommandPublish,
    EventAllocation,
    EventInitialization,
    CommandDoorbell,
    EventDecode,
    EventAcknowledge,
}

#[derive(Clone, Copy, Debug, Eq, PartialEq)]
enum Cleanup {
    Dma(DmaPurpose),
    Bar(u8),
    Domain,
}

struct FaultPlatform {
    fault: FaultPoint,
    cleanup: Vec<Cleanup>,
    writes: Vec<(u32, u32)>,
    status: u32,
    producer: u32,
    tick: u64,
    tick_step: u64,
}

impl FaultPlatform {
    fn new(fault: FaultPoint) -> Self {
        Self {
            fault,
            cleanup: Vec::new(),
            writes: Vec::new(),
            status: 1,
            producer: 0,
            tick: 1,
            tick_step: 0,
        }
    }

    fn assert_cleanup(&self, expected: &[Cleanup]) {
        assert_eq!(self.cleanup.as_slice(), expected);
    }
}

impl HermesPlatform for FaultPlatform {
    type Domain = u8;
    type Mmio = u8;
    type Dma = u8;

    fn isolate_device(&mut self, _identity: HermesPciIdentity) -> Result<u8, HermesFault> {
        Ok(1)
    }

    fn release_domain(&mut self, _domain: u8) {
        self.cleanup.push(Cleanup::Domain);
    }

    fn map_bar(
        &mut self,
        _domain: u8,
        bar: u8,
        minimum_length: u64,
    ) -> Result<MmioWindow<u8>, HermesFault> {
        Ok(MmioWindow {
            handle: bar,
            bar,
            length: if self.fault == FaultPoint::ShortBar {
                minimum_length - 1
            } else {
                minimum_length
            },
        })
    }

    fn unmap_bar(&mut self, window: MmioWindow<u8>) {
        self.cleanup.push(Cleanup::Bar(window.bar));
    }

    fn read32(&mut self, _window: MmioWindow<u8>, offset: u32) -> Result<u32, HermesFault> {
        if offset == 8
            && matches!(
                self.fault,
                FaultPoint::EventDecode | FaultPoint::EventAcknowledge
            )
        {
            Ok(1)
        } else if offset == 8 {
            Ok(self.producer)
        } else if offset == 24 {
            Ok(self.status)
        } else {
            Ok(0)
        }
    }

    fn write32(
        &mut self,
        _window: MmioWindow<u8>,
        offset: u32,
        value: u32,
    ) -> Result<(), HermesFault> {
        if (self.fault == FaultPoint::CommandDoorbell && offset == 16)
            || (self.fault == FaultPoint::EventAcknowledge && offset == 12)
        {
            Err(HermesFault::MmioWrite)
        } else {
            self.writes.push((offset, value));
            Ok(())
        }
    }

    fn io_fence(&mut self) -> Result<(), HermesFault> {
        Ok(())
    }

    fn allocate_dma(
        &mut self,
        _domain: u8,
        length: usize,
        alignment: usize,
        purpose: DmaPurpose,
    ) -> Result<DmaRegion<u8>, HermesFault> {
        if self.fault == FaultPoint::EventAllocation && purpose == DmaPurpose::EventRing {
            return Err(HermesFault::DmaAllocation);
        }
        let handle: u8 = match purpose {
            DmaPurpose::Firmware => 1,
            DmaPurpose::CommandRing => 2,
            DmaPurpose::EventRing => 3,
        };
        Ok(DmaRegion {
            handle,
            device_address: u64::from(handle) * DMA_GRANULE as u64,
            length: if self.fault == FaultPoint::CommandValidation
                && purpose == DmaPurpose::CommandRing
            {
                length - 1
            } else {
                length
            },
            alignment,
            purpose,
        })
    }

    fn release_dma(&mut self, region: DmaRegion<u8>) {
        self.cleanup.push(Cleanup::Dma(region.purpose));
    }

    fn dma_write(
        &mut self,
        _region: DmaRegion<u8>,
        _offset: usize,
        _bytes: &[u8],
    ) -> Result<(), HermesFault> {
        Ok(())
    }

    fn dma_read(
        &mut self,
        _region: DmaRegion<u8>,
        _offset: usize,
        _bytes: &mut [u8],
    ) -> Result<(), HermesFault> {
        Ok(())
    }

    fn dma_publish(
        &mut self,
        region: DmaRegion<u8>,
        _offset: usize,
        _length: usize,
    ) -> Result<(), HermesFault> {
        let injected = matches!(
            (self.fault, region.purpose),
            (FaultPoint::FirmwarePublish, DmaPurpose::Firmware)
                | (FaultPoint::CommandPublish, DmaPurpose::CommandRing)
                | (FaultPoint::EventInitialization, DmaPurpose::EventRing)
        );
        if injected {
            Err(HermesFault::DmaAccess)
        } else {
            Ok(())
        }
    }

    fn dma_acquire(
        &mut self,
        _region: DmaRegion<u8>,
        _offset: usize,
        _length: usize,
    ) -> Result<(), HermesFault> {
        Ok(())
    }

    fn now_tick(&mut self) -> u64 {
        let now = self.tick;
        self.tick = self.tick.wrapping_add(self.tick_step);
        now
    }

    fn relax(&mut self) {}
}

struct TestCodec {
    profile: HermesTransportProfile,
    decode_error: bool,
    event: HermesNormalizedEvent,
    program: Vec<HermesBootInstruction>,
}

fn asynchronous() -> HermesNormalizedEvent {
    let mut event = HermesNormalizedEvent::empty();
    event.epoch = 7;
    event.event_kind = HERMES_EVENT_ASYNC;
    event
}

impl TestCodec {
    fn new(firmware: bool) -> Self {
        TestCodec {
            profile: transport_profile(firmware),
            decode_error: false,
            event: asynchronous(),
            program: Vec::new(),
        }
    }
}

impl HermesCodec for TestCodec {
    fn personality_id(&self) -> u64 {
        HERMES_DRIVER_ID
    }

    fn compatibility_manifest(&self) -> GpuCompatibilityManifest {
        manifest_for(DriverStrategy::HermesNvidia).unwrap()
    }

    fn match_device(
        &self,
        _identity: &HermesPciIdentity,
        _evidence: &HermesProbeEvidence,
    ) -> Result<u32, HermesFault> {
        Ok(10_000)
    }

    fn describe_transport(
        &self,
        _identity: &HermesPciIdentity,
        _evidence: &HermesProbeEvidence,
    ) -> Result<HermesTransportProfile, HermesFault> {
        Ok(self.profile)
    }

    fn boot_instruction(
        &self,
        _identity: &HermesPciIdentity,
        _evidence: &HermesProbeEvidence,
        stage: u32,
        index: u32,
    ) -> Result<Option<HermesBootInstruction>, HermesFault> {
        if stage == HERMES_BOOT_STAGE_IGNITE {
            Ok(self.program.get(index as usize).copied())
        } else {
            Ok(None)
        }
    }

    fn encode_command(
        &self,
        _profile: &HermesTransportProfile,
        _command: &HermesNormalizedCommand,
        output: &mut [u8],
    ) -> Result<usize, HermesFault> {
        output[..16].fill(0x5a);
        Ok(16)
    }

    fn decode_event(
        &self,
        _profile: &HermesTransportProfile,
        _input: &[u8],
    ) -> Result<HermesNormalizedEvent, HermesFault> {
        if self.decode_error {
            return Err(HermesFault::CodecRejected);
        }
        Ok(self.event)
    }

    fn reset(
        &self,
        _profile: &HermesTransportProfile,
        _new_epoch: u32,
    ) -> Result<(), HermesFault> {
        Ok(())
    }
}

struct TestAuthority;

impl FirmwareAuthority for TestAuthority {
    fn authenticate(
        &self,
        _identity: &HermesPciIdentity,
        _evidence: &HermesProbeEvidence,
        _profile: &HermesTransportProfile,
        image: &FirmwareImage<'_>,
    ) -> Result<FirmwareSeal, HermesFault> {
        Ok(FirmwareSeal {
            manifest_hash: image.manifest_hash,
            version: image.version,
            policy_epoch: 1,
            trust_domain: 1,
        })
    }
}

#[derive(Clone, Copy, Debug, PartialEq)]
struct TestService {
    curve: HermesServiceCurve,
    accepted: u64,
    virtual_backlog_q16: u64,
    refusal: Option<HermesAdmissionFault>,
}

impl HermesService for TestService {
    fn open(
        curve: HermesServiceCurve,
        _now_tick: u64,
        secret: u64,
    ) -> Result<Self, HermesAdmissionFault> {
        if secret == 0 || curve.window_ticks == 0 {
            return Err(HermesAdmissionFault::InvalidCurve);
        }
        Ok(TestService {
            curve,
            accepted: 0,
            virtual_backlog_q16: 0,
            refusal: None,
        })
    }

    fn reserve(
        &mut self,
        now_tick: u64,
        _deadline_tick: u64,
        _backlog: usize,
    ) -> Result<HermesAdmissionCertificate, HermesAdmissionFault> {
        if let Some(refusal) = self.refusal {
            return Err(refusal);
        }
        self.accepted += 1;
        self.virtual_backlog_q16 += 1 << 16;
        let mut certificate = HermesAdmissionCertificate::empty();
        certificate.reservation_sequence = self.accepted;
        certificate.admitted_tick = now_tick;
        Ok(certificate)
    }

    fn rollback(
        &mut self,
        admission: HermesAdmissionCertificate,
    ) -> Result<(), HermesAdmissionFault> {
        if admission.reservation_sequence != self.accepted {
            return Err(HermesAdmissionFault::StaleReservation);
        }
        self.accepted -= 1;
        self.virtual_backlog_q16 -= 1 << 16;
        Ok(())
    }

    fn observe_completion(
        &mut self,
        _admission: HermesAdmissionCertificate,
        _now_tick: u64,
    ) -> Result<(), HermesAdmissionFault> {
        self.virtual_backlog_q16 -= 1 << 16;
        Ok(())
    }

    fn curve(&self) -> HermesServiceCurve {
        self.curve
    }
}

struct Judge;

impl GpuCompatibility for Judge {
    fn manifest_valid(&self, manifest: &GpuCompatibilityManifest) -> bool {
        manifest.abi_version != 0 && manifest.driver_id != 0
    }

    fn evidence_valid(&self, evidence: &GpuDeviceEvidence) -> bool {
        evidence.evidence_root != 0
            && evidence
                .bars
                .iter()
                .all(|bar| bar.flags & GPU_BAR_PRESENT == 0 || bar.length != 0)
    }

    fn usable_mmio(&self, bar: &GpuBarEvidence) -> bool {
        bar.flags & GPU_BAR_PRESENT != 0 && bar.flags & GPU_BAR_IO == 0 && bar.length != 0
    }

    fn evaluate(
        &self,
        manifest: &GpuCompatibilityManifest,
        evidence: &GpuDeviceEvidence,
        secret: u64,
    ) -> GpuCompatibilityProof {
        let accepted = self.evidence_valid(evidence)
            && manifest.vendor_id == evidence.identity.vendor_id
            && evidence.identity.class_code & manifest.class_mask == manifest.class_value
            && evidence.topology_flags & manifest.required_topology == manifest.required_topology
            && evidence.bars[0].length >= manifest.minimum_bar_lengths[0];
        GpuCompatibilityProof {
            accepted,
            score_q16: u32::from(manifest.priority),
            proof_root: secret ^ evidence.evidence_root,
        }
    }
}

fn transport_profile(firmware: bool) -> HermesTransportProfile {
    let mut profile = HermesTransportProfile::empty();
    profile.personality_id = HERMES_DRIVER_ID;
    profile.protocol_family = 1;
    profile.wire_major = 1;
    profile.command_slot_bytes = 256;
    profile.event_slot_bytes = 256;
    profile.command_depth = 2;
    profile.event_depth = 2;
    profile.required_bar_lengths[0] = 4096;
    if firmware {
        profile.firmware_minimum_bytes = 64;
        profile.firmware_maximum_bytes = 64;
        profile.firmware_alignment = DMA_GRANULE as u32;
    }
    profile.command_producer_offset = 0;
    profile.command_consumer_offset = 4;
    profile.event_producer_offset = 8;
    profile.event_consumer_offset = 12;
    profile.command_doorbell_offset = 16;
    profile.event_doorbell_offset = 20;
    profile.status_offset = 24;
    profile.ready_mask = 1;
    profile.ready_value = 1;
    profile.fault_mask = 2;
    profile.maximum_wire_bytes = 256;
    profile.maximum_boot_steps = 8;
    profile.minimum_completions_per_window = 1;
    profile.maximum_admissions_per_window = 1;
    profile.maximum_admission_backlog = 1;
    profile.service_window_ticks = 100;
    profile.service_latency_ticks = 1;
    profile
}

fn identity() -> HermesPciIdentity {
    HermesPciIdentity {
        segment: 0,
        bus: 1,
        slot: 0,
        function: 0,
        revision: 1,
        vendor_id: NVIDIA_VENDOR_ID,
        device_id: 0x2684,
        subsystem_vendor_id: NVIDIA_VENDOR_ID,
        subsystem_device_id: 1,
        class_code: PCI_CLASS_DISPLAY,
        subclass: 0,
        programming_interface: 0,
    }
}

fn probe_evidence() -> HermesProbeEvidence {
    let mut evidence = HermesProbeEvidence::empty();
    evidence.bar_lengths[0] = 4096;
    evidence
}

fn portable() -> GpuDeviceEvidence {
    let identity = identity();
    let mut evidence = portable_evidence(&GpuFingerprint::empty());
    evidence.identity.segment = identity.segment;
    evidence.identity.bus = identity.bus;
    evidence.identity.slot = identity.slot;
    evidence.identity.function = identity.function;
    evidence.identity.revision = identity.revision;
    evidence.identity.vendor_id = identity.vendor_id;
    evidence.identity.device_id = identity.device_id;
    evidence.identity.subsystem_vendor_id = identity.subsystem_vendor_id;
    evidence.identity.subsystem_device_id = identity.subsystem_device_id;
    evidence.identity.class_code = identity.class_code;
    evidence.identity.subclass = identity.subclass;
    evidence.identity.programming_interface = identity.programming_interface;
    evidence.bars[0] = GpuBarEvidence {
        physical_address: 0x8000_0000,
        length: 4096,
        flags: GPU_BAR_PRESENT,
    };
    evidence.topology_flags = GPU_TOPOLOGY_IOMMU_ISOLATED;
    evidence.evidence_root = 7;
    evidence
}

type Bound<'a, State> = Hermes<'a, FaultPlatform, TestCodec, TestService, State, 1>;

fn bind<'a>(codec: &'a TestCodec, trace: &mut HermesTrace<FaultPlatform>) -> Bound<'a, Profiled> {
    let mut registry = PersonalityRegistry::<TestCodec, 1>::new();
    registry.register(codec, &Judge).unwrap();
    match Bound::<Profiled>::bind(
        &registry,
        &Judge,
        identity(),
        probe_evidence(),
        &portable(),
        17,
        1,
        trace,
    ) {
        Ok(profiled) => profiled,
        Err(error) => panic!("{:?}", error),
    }
}

fn stage_failure(fault: FaultPoint, firmware: bool) -> (HermesFault, FaultPlatform) {
    let mut trace = HermesTrace::new(FaultPlatform::new(fault));
    let codec = TestCodec::new(firmware);
    let profiled = bind(&codec, &mut trace);
    let firmware_bytes = [0x5a; 64];
    let image = firmware.then_some(FirmwareImage {
        bytes: &firmware_bytes,
        manifest_hash: [1; 32],
        version: 1,
        flags: 0,
    });
    let error = match profiled.stage(image, &TestAuthority, &mut trace) {
        Ok(_) => panic!("fault injection unexpectedly staged the transport"),
        Err(error) => error,
    };
    (error, trace.platform)
}

fn online<'a>(codec: &'a TestCodec) -> Bound<'a, Online> {
    let profile = codec.profile;
    let mut runtime = match Runtime::<TestService, 1>::new(&identity(), &profile, 1, 17) {
        Ok(runtime) => runtime,
        Err(error) => panic!("{:?}", error),
    };
    runtime.epoch = 7;
    let mut lease = HermesLease::<FaultPlatform>::new();
    lease.domain = Some(1);
    lease.bars[0] = Some(MmioWindow {
        handle: 0,
        bar: 0,
        length: 4096,
    });
    lease.command_ring = Some(DmaRegion {
        handle: 2,
        device_address: 0x2000,
        length: 512,
        alignment: DMA_GRANULE,
        purpose: DmaPurpose::CommandRing,
    });
    lease.event_ring = Some(DmaRegion {
        handle: 3,
        device_address: 0x3000,
        length: 512,
        alignment: DMA_GRANULE,
        purpose: DmaPurpose::EventRing,
    });
    Hermes {
        codec,
        identity: identity(),
        evidence: probe_evidence(),
        profile,
        compatibility_proof: GpuCompatibilityProof::empty(),
        firmware_seal: None,
        lease,
        runtime,
        state: PhantomData,
    }
}

#[test]
fn short_bar_is_owned_before_validation_failure() {
    let (error, platform) = stage_failure(FaultPoint::ShortBar, false);
    assert_eq!(error, HermesFault::BarUnavailable);
    platform.assert_cleanup(&[Cleanup::Bar(0), Cleanup::Domain]);
}

#[test]
fn firmware_publish_failure_releases_the_firmware_region_once() {
    let (error, platform) = stage_failure(FaultPoint::FirmwarePublish, true);
    assert_eq!(error, HermesFault::DmaAccess);
    platform.assert_cleanup(&[
        Cleanup::Dma(DmaPurpose::Firmware),
        Cleanup::Bar(0),
        Cleanup::Domain,
    ]);
}

#[test]
fn command_ring_failures_release_the_ring_once() {
    for fault in [FaultPoint::CommandValidation, FaultPoint::CommandPublish] {
        let (error, platform) = stage_failure(fault, false);
        assert!(matches!(
            error,
            HermesFault::DmaAddressOverflow | HermesFault::DmaAccess
        ));
        platform.assert_cleanup(&[
            Cleanup::Dma(DmaPurpose::CommandRing),
            Cleanup::Bar(0),
            Cleanup::Domain,
        ]);
    }
}

#[test]
fn event_failures_release_all_prior_dma_in_reverse_order() {
    let (allocation_error, allocation_platform) = stage_failure(FaultPoint::EventAllocation, false);
    assert_eq!(allocation_error, HermesFault::DmaAllocation);
    allocation_platform.assert_cleanup(&[
        Cleanup::Dma(DmaPurpose::CommandRing),
        Cleanup::Bar(0),
        Cleanup::Domain,
    ]);

    let (initialization_error, initialization_platform) =
        stage_failure(FaultPoint::EventInitialization, false);
    assert_eq!(initialization_error, HermesFault::DmaAccess);
    initialization_platform.assert_cleanup(&[
        Cleanup::Dma(DmaPurpose::EventRing),
        Cleanup::Dma(DmaPurpose::CommandRing),
        Cleanup::Bar(0),
        Cleanup::Domain,
    ]);
}

#[test]
fn failed_command_publication_permanently_poisons_the_transport() {
    for (fault, expected) in [
        (FaultPoint::CommandPublish, HermesFault::DmaAccess),
        (FaultPoint::CommandDoorbell, HermesFault::MmioWrite),
    ] {
        let mut trace = HermesTrace::new(FaultPlatform::new(fault));
        let codec = TestCodec::new(false);
        let mut hermes = online(&codec);

        assert_eq!(
            hermes.submit(0x40, 0, 0, [0; 8], &[], 1_000, &mut trace),
            Err(expected),
        );
        assert!(hermes.transport_poisoned());
        assert_eq!(hermes.runtime.command_producer, 0);
        assert_eq!(
            hermes.submit(0x41, 0, 0, [0; 8], &[], 1_000, &mut trace),
            Err(HermesFault::RecoveryRequired),
        );
        assert_eq!(
            hermes.poll_event(&mut trace),
            Err(HermesFault::RecoveryRequired)
        );
        assert_eq!(
            hermes.expire_one(&mut trace),
            Err(HermesFault::RecoveryRequired)
        );
    }
}

#[test]
fn event_decode_and_acknowledgement_failures_poison_without_advancing_consumer() {
    for (fault, decode_error, expected) in [
        (FaultPoint::EventDecode, true, HermesFault::CodecRejected),
        (FaultPoint::EventAcknowledge, false, HermesFault::MmioWrite),
    ] {
        let mut trace = HermesTrace::new(FaultPlatform::new(fault));
        let mut codec = TestCodec::new(false);
        codec.decode_error = decode_error;
        let mut hermes = online(&codec);

        assert_eq!(hermes.poll_event(&mut trace), Err(expected));
        assert!(hermes.transport_poisoned());
        assert_eq!(hermes.runtime.event_consumer, 0);
        assert_eq!(
            hermes.poll_event(&mut trace),
            Err(HermesFault::RecoveryRequired)
        );
    }
}

#[test]
fn discovery_handoff_preserves_measured_pci_and_bar_evidence() {
    let mut fingerprint = GpuFingerprint::empty();
    fingerprint.segment = 2;
    fingerprint.bus = 3;
    fingerprint.slot = 4;
    fingerprint.function = 1;
    fingerprint.revision = 0xa1;
    fingerprint.vendor_id = NVIDIA_VENDOR_ID;
    fingerprint.device_id = 0x2684;
    fingerprint.subsystem_vendor_id = 0x1043;
    fingerprint.subsystem_device_id = 0x8899;
    fingerprint.class_code = PCI_CLASS_DISPLAY;
    fingerprint.subclass = 2;
    fingerprint.programming_interface = 7;
    fingerprint.capability_flags = 0x55;
    fingerprint.topology_flags = TOPOLOGY_IOMMU_ISOLATED;
    fingerprint.bars[0] = BarEvidence {
        raw_low: 0x8000_0004,
        raw_high: 1,
        length: 16 * 1024 * 1024,
        flags: BAR_PRESENT | BAR_64BIT,
    };
    fingerprint.bars[2] = BarEvidence {
        raw_low: 0xc001,
        raw_high: 0,
        length: 256,
        flags: BAR_PRESENT | BAR_IO,
    };
    fingerprint.evidence_root = 0x1234;

    let discovery = HermesDiscovery::from_fingerprint(&fingerprint, &Judge).unwrap();
    let identity = discovery.identity();
    assert_eq!(identity.segment, fingerprint.segment);
    assert_eq!(identity.bus, fingerprint.bus);
    assert_eq!(identity.slot, fingerprint.slot);
    assert_eq!(identity.function, fingerprint.function);
    assert_eq!(identity.revision, fingerprint.revision);
    assert_eq!(identity.vendor_id, fingerprint.vendor_id);
    assert_eq!(identity.device_id, fingerprint.device_id);
    assert_eq!(
        identity.subsystem_vendor_id,
        fingerprint.subsystem_vendor_id
    );
    assert_eq!(
        identity.subsystem_device_id,
        fingerprint.subsystem_device_id
    );
    assert_eq!(identity.class_code, fingerprint.class_code);
    assert_eq!(identity.subclass, fingerprint.subclass);
    assert_eq!(
        identity.programming_interface,
        fingerprint.programming_interface
    );

    let probe = discovery.probe_evidence();
    assert_eq!(probe.bar_lengths[0], fingerprint.bars[0].length);
    assert_eq!(probe.bar_lengths[2], 0);
    assert_eq!(probe.observed_features, 0);
    assert_eq!(
        discovery.portable_evidence().evidence_root,
        fingerprint.evidence_root
    );

    fingerprint.bars[0].length = 0;
    assert_eq!(
        HermesDiscovery::from_fingerprint(&fingerprint, &Judge),
        Err(HermesFault::CompatibilityRejected),
    );
}

#[test]
fn rejects_non_nvidia_identity() {
    let identity = HermesPciIdentity {
        segment: 0,
        bus: 1,
        slot: 0,
        function: 0,
        revision: 0,
        vendor_id: 0x1234,
        device_id: 1,
        subsystem_vendor_id: 0,
        subsystem_device_id: 0,
        class_code: PCI_CLASS_DISPLAY,
        subclass: 0,
        programming_interface: 0,
    };
    assert_eq!(validate_identity(&identity), Err(HermesFault::NotNvidia));
}

#[test]
fn ring_geometry_is_bounded_and_power_of_two() {
    assert!(validate_ring_geometry(256, 256).is_ok());
    assert_eq!(
        validate_ring_geometry(255, 256),
        Err(HermesFault::QueueGeometry)
    );
    assert_eq!(
        validate_ring_geometry(256, 0),
        Err(HermesFault::QueueGeometry)
    );
}

#[test]
fn queue_publication_must_match_the_allocated_geometry() {
    assert_eq!(
        validate_queue_publication(64 * 256, 64, 256, 64, 256),
        Ok(())
    );
    assert_eq!(
        validate_queue_publication(64 * 256, 64, 256, 64, 128),
        Err(HermesFault::QueueGeometry),
    );
    assert_eq!(
        validate_queue_publication(64 * 256 - 1, 64, 256, 64, 256),
        Err(HermesFault::QueueGeometry),
    );
}

#[test]
fn wrapped_deadlines_preserve_half_range_ordering() {
    assert!(tick_reached(100, 100));
    assert!(tick_reached(101, 100));
    assert!(!tick_reached(99, 100));
}

#[test]
fn correlation_rotation_is_atomic_and_terminal_space_never_wraps() {
    let profile = transport_profile(false);
    let mut runtime = match Runtime::<TestService, 1>::new(&identity(), &profile, 1, 17) {
        Ok(runtime) => runtime,
        Err(error) => panic!("{:?}", error),
    };

    runtime.epoch = 41;
    runtime.next_sequence = u32::MAX;
    assert_eq!(runtime.allocate_correlation(), Ok((41, u32::MAX)));
    assert_eq!(runtime.allocate_correlation(), Ok((42, 1)));

    runtime.epoch = u32::MAX;
    runtime.next_sequence = u32::MAX;
    assert_eq!(runtime.allocate_correlation(), Ok((u32::MAX, u32::MAX)));
    assert_eq!(runtime.next_sequence, 0);
    assert_eq!(
        runtime.allocate_correlation(),
        Err(HermesFault::CorrelationSpaceExhausted)
    );
}

#[test]
fn exhausted_correlation_rolls_back_service_admission_exactly() {
    let mut trace = HermesTrace::new(FaultPlatform::new(FaultPoint::ShortBar));
    let codec = TestCodec::new(false);
    let mut hermes = online(&codec);
    hermes.runtime.epoch = u32::MAX;
    hermes.runtime.next_sequence = 0;
    let accepted = hermes.runtime.service.accepted;
    let virtual_backlog = hermes.runtime.service.virtual_backlog_q16;

    assert_eq!(
        hermes.submit(1, 0, 0, [0; 8], &[], 10_000, &mut trace),
        Err(HermesFault::CorrelationSpaceExhausted)
    );
    assert_eq!(hermes.runtime.pending.live_count(), 0);
    assert_eq!(hermes.runtime.service.accepted, accepted);
    assert_eq!(hermes.runtime.service.virtual_backlog_q16, virtual_backlog);
    assert_eq!(
        hermes.runtime.last_admission,
        HermesAdmissionCertificate::empty()
    );
}

fn admission(sequence: u64) -> HermesAdmissionCertificate {
    HermesAdmissionCertificate {
        reservation_sequence: sequence,
        admitted_tick: 10,
        window_start: 10,
        backlog_before: 0,
        admitted_before: 0,
        deterministic_delay_ticks: 20,
        uncertainty_guard_ticks: 1,
        drift_penalty_ticks: 0,
        delay_bound_ticks: 21,
        deadline_slack_ticks: 79,
        curve_root: 7,
        calibration_root: 11,
        certificate_root: 13,
    }
}

#[test]
fn correlated_reply_preserves_admission_evidence() {
    let mut table = PendingTable::<2>::new();
    table
        .insert(PendingRequest {
            live: true,
            epoch: 3,
            sequence: 9,
            opcode: 0x44,
            deadline_tick: 100,
            admission: admission(1),
        })
        .unwrap();

    let mut event = HermesNormalizedEvent::empty();
    event.correlation_epoch = 3;
    event.correlation_sequence = 9;
    let completed = table.take_response(&event).unwrap();

    assert_eq!(completed.opcode, 0x44);
    assert_eq!(completed.admission, admission(1));
    assert_eq!(table.live_count(), 0);
}

#[test]
fn expiry_returns_the_complete_reservation() {
    let mut table = PendingTable::<2>::new();
    table
        .insert(PendingRequest {
            live: true,
            epoch: 4,
            sequence: 10,
            opcode: 0x55,
            deadline_tick: 50,
            admission: admission(2),
        })
        .unwrap();

    let expired = table.expire_one(50).unwrap();
    assert_eq!(expired.epoch, 4);
    assert_eq!(expired.sequence, 10);
    assert_eq!(expired.admission, admission(2));
    assert_eq!(table.live_count(), 0);
}

#[test]
fn pending_table_refuses_duplicates_and_overflow() {
    let mut table = PendingTable::<1>::new();
    let request = PendingRequest {
        live: true,
        epoch: 1,
        sequence: 2,
        opcode: 3,
        deadline_tick: 4,
        admission: admission(3),
    };
    assert_eq!(table.insert(request), Ok(()));
    assert_eq!(table.insert(request), Err(HermesFault::DuplicateRequest));
    let mut other = request;
    other.sequence = 3;
    assert_eq!(table.insert(other), Err(HermesFault::PendingCapacity));
    table.cancel(1, 3);
    assert_eq!(table.live_count(), 1);
    table.cancel(1, 2);
    assert_eq!(table.live_count(), 0);
    assert_eq!(table.expire_one(4), None);
    let event = HermesNormalizedEvent::empty();
    assert_eq!(
        table.take_response(&event),
        Err(HermesFault::UnknownResponse)
    );
}

#[test]
fn deadlines_hold_across_the_wrap_of_the_clock() {
    assert!(tick_reached(3, u64::MAX - 3));
    assert!(!tick_reached(u64::MAX - 3, 3));
    assert_eq!(earlier_deadline(u64::MAX - 3, 3), u64::MAX - 3);
    assert_eq!(earlier_deadline(3, u64::MAX - 3), u64::MAX - 3);
}

#[test]
fn words_are_narrowed_or_refused() {
    assert_eq!(word_u8(255), Ok(255));
    assert_eq!(word_u8(256), Err(HermesFault::BootInstructionRejected));
    assert_eq!(word_u16(65_535), Ok(65_535));
    assert_eq!(word_u16(65_536), Err(HermesFault::BootInstructionRejected));
    assert_eq!(word_u32(u64::from(u32::MAX)), Ok(u32::MAX));
    assert_eq!(
        word_u32(1 << 32),
        Err(HermesFault::BootInstructionRejected)
    );
    assert_eq!(usize_to_u32(77), Ok(77));
    assert_eq!(
        usize_to_u32(1usize << 32),
        Err(HermesFault::ArithmeticOverflow)
    );
}

#[test]
fn powers_of_two_are_recognized() {
    for shift in 0..64 {
        assert!(is_power_of_two(1u64 << shift));
    }
    assert!(!is_power_of_two(0));
    assert!(!is_power_of_two(3));
    assert!(!is_power_of_two(u64::MAX));
}

#[test]
fn ring_sizes_and_slots_follow_the_geometry() {
    assert_eq!(ring_bytes(64, 256), Ok(16_384));
    assert_eq!(ring_bytes(1, 256), Err(HermesFault::QueueGeometry));
    assert_eq!(ring_bytes(64, 258), Err(HermesFault::QueueGeometry));
    assert_eq!(ring_bytes(64, 4100), Err(HermesFault::QueueGeometry));
    assert_eq!(ring_slot(5, 4), 1);
    assert_eq!(ring_slot(u32::MAX, 8), 7);
}

#[test]
fn identities_are_refused_for_the_first_reason() {
    let mut probe = identity();
    assert_eq!(validate_identity(&probe), Ok(()));
    probe.function = 8;
    assert_eq!(
        validate_identity(&probe),
        Err(HermesFault::PersonalityRejected)
    );
    probe.class_code = 2;
    assert_eq!(
        validate_identity(&probe),
        Err(HermesFault::NotDisplayController)
    );
}

#[test]
fn profiles_are_refused_for_the_first_reason() {
    let evidence = probe_evidence();
    let good = transport_profile(false);
    assert_eq!(validate_profile(HERMES_DRIVER_ID, &good, &evidence), Ok(()));
    assert_eq!(
        validate_profile(1, &good, &evidence),
        Err(HermesFault::ProfileRejected)
    );
    let mut profile = good;
    profile.event_depth = 3;
    assert_eq!(
        validate_profile(HERMES_DRIVER_ID, &profile, &evidence),
        Err(HermesFault::QueueGeometry)
    );
    profile = good;
    profile.maximum_admission_backlog = 2;
    assert_eq!(
        validate_profile(HERMES_DRIVER_ID, &profile, &evidence),
        Err(HermesFault::ServiceCurveRejected)
    );
    profile = good;
    profile.maximum_wire_bytes = 128;
    assert_eq!(
        validate_profile(HERMES_DRIVER_ID, &profile, &evidence),
        Err(HermesFault::QueueGeometry)
    );
    profile = good;
    profile.firmware_alignment = 3;
    assert_eq!(
        validate_profile(HERMES_DRIVER_ID, &profile, &evidence),
        Err(HermesFault::FirmwareAlignment)
    );
    profile = good;
    profile.required_bar_lengths[3] = 1;
    assert_eq!(
        validate_profile(HERMES_DRIVER_ID, &profile, &evidence),
        Err(HermesFault::BarUnavailable)
    );
    profile = good;
    profile.status_offset = 4093;
    assert_eq!(
        validate_profile(HERMES_DRIVER_ID, &profile, &evidence),
        Err(HermesFault::MmioOutOfRange)
    );
}

#[test]
fn firmware_is_refused_for_the_first_reason() {
    let bytes = [1u8; 64];
    let image = FirmwareImage {
        bytes: &bytes,
        manifest_hash: [1; 32],
        version: 1,
        flags: 0,
    };
    assert_eq!(
        validate_firmware(&transport_profile(false), &image),
        Err(HermesFault::FirmwareUnexpected)
    );
    let mut profile = transport_profile(true);
    assert_eq!(validate_firmware(&profile, &image), Ok(()));
    let short = FirmwareImage {
        bytes: &bytes[..63],
        ..image
    };
    assert_eq!(
        validate_firmware(&profile, &short),
        Err(HermesFault::FirmwareSize)
    );
    let blank = FirmwareImage {
        manifest_hash: [0; 32],
        ..image
    };
    assert_eq!(
        validate_firmware(&profile, &blank),
        Err(HermesFault::FirmwareRejected)
    );
    profile.firmware_alignment = 0;
    assert_eq!(
        validate_firmware(&profile, &image),
        Err(HermesFault::FirmwareAlignment)
    );
}

#[test]
fn regions_and_windows_are_bounded() {
    let region = DmaRegion {
        handle: 1u8,
        device_address: 0x2000,
        length: 512,
        alignment: 4096,
        purpose: DmaPurpose::CommandRing,
    };
    assert_eq!(validate_dma_region(region, 512, 4096), Ok(()));
    assert_eq!(
        validate_dma_region(region, 513, 4096),
        Err(HermesFault::DmaAddressOverflow)
    );
    let window = MmioWindow {
        handle: 1u8,
        bar: 0,
        length: 16,
    };
    assert_eq!(validate_mmio_access(window, 12, 4), Ok(()));
    assert_eq!(
        validate_mmio_access(window, 13, 1),
        Err(HermesFault::MmioOutOfRange)
    );
    assert_eq!(
        validate_mmio_access(window, 16, 4),
        Err(HermesFault::MmioOutOfRange)
    );
    let instruction = HermesBootInstruction {
        instruction_version: 1,
        struct_size: HERMES_INSTRUCTION_BYTES,
        stage: 2,
        opcode: 0,
        words: [0; 8],
    };
    assert_eq!(validate_boot_instruction(2, &instruction), Ok(()));
    assert_eq!(
        validate_boot_instruction(3, &instruction),
        Err(HermesFault::BootInstructionRejected)
    );
}

#[test]
fn two_of_three_reads_agree_or_none() {
    assert_eq!(consensus(1, 1, 2), Ok(1));
    assert_eq!(consensus(1, 2, 1), Ok(1));
    assert_eq!(consensus(2, 1, 1), Ok(1));
    assert_eq!(consensus(1, 2, 3), Err(HermesFault::UnstableMmio));
}

#[test]
fn admission_faults_have_transport_names() {
    for (fault, expected) in [
        (
            HermesAdmissionFault::InvalidCurve,
            HermesFault::ServiceCurveRejected,
        ),
        (
            HermesAdmissionFault::BacklogSaturated,
            HermesFault::ServiceBacklogSaturated,
        ),
        (
            HermesAdmissionFault::ArrivalEnvelopeExceeded,
            HermesFault::ServiceArrivalEnvelopeExceeded,
        ),
        (
            HermesAdmissionFault::DeadlineUnsafe,
            HermesFault::ServiceDeadlineUnsafe,
        ),
        (
            HermesAdmissionFault::TimeRegression,
            HermesFault::ServiceTimeRegression,
        ),
        (
            HermesAdmissionFault::CorruptObservation,
            HermesFault::ServiceReservationCorrupt,
        ),
    ] {
        assert_eq!(map_admission_fault(fault), expected);
    }
}

#[test]
fn a_registry_keeps_names_apart_and_has_a_capacity() {
    let codec = TestCodec::new(false);
    let mut registry = PersonalityRegistry::<TestCodec, 1>::new();
    assert_eq!(registry.register(&codec, &Judge), Ok(()));
    assert_eq!(
        registry.register(&codec, &Judge),
        Err(HermesFault::PersonalityRejected)
    );
    let mut manifest = codec.compatibility_manifest();
    manifest.driver_id = 5;
    assert_eq!(
        registry.enroll(&codec, 5, &manifest, true),
        Err(HermesFault::PersonalityCapacity)
    );
    assert_eq!(
        registry.enroll(&codec, 6, &manifest, true),
        Err(HermesFault::PersonalityRejected)
    );
}

#[test]
fn resolution_refuses_strangers_ties_and_low_scores() {
    let codec = TestCodec::new(false);
    let mut registry = PersonalityRegistry::<TestCodec, 2>::new();
    registry.register(&codec, &Judge).unwrap();
    let identity = identity();
    let evidence = probe_evidence();
    let portable = portable();
    let resolved = registry
        .resolve(&Judge, &identity, &evidence, &portable, 17, 1)
        .ok()
        .unwrap();
    assert_eq!(resolved.score, 12_000);
    assert!(matches!(
        registry.resolve(&Judge, &identity, &evidence, &portable, 0, 1),
        Err(HermesFault::CompatibilityRejected)
    ));
    assert!(matches!(
        registry.resolve(&Judge, &identity, &evidence, &portable, 17, 10_001),
        Err(HermesFault::NoPersonality)
    ));
    let mut manifest = codec.compatibility_manifest();
    manifest.driver_id = 5;
    registry.enroll(&codec, 5, &manifest, true).unwrap();
    assert!(matches!(
        registry.resolve(&Judge, &identity, &evidence, &portable, 17, 1),
        Err(HermesFault::AmbiguousPersonality)
    ));
}

#[test]
fn a_staged_transport_holds_everything_and_shuts_down_in_reverse() {
    let mut trace = HermesTrace::new(FaultPlatform::new(FaultPoint::Nowhere));
    let codec = TestCodec::new(true);
    let profiled = bind(&codec, &mut trace);
    let bytes = [0x5a; 64];
    let image = FirmwareImage {
        bytes: &bytes,
        manifest_hash: [1; 32],
        version: 1,
        flags: 0,
    };
    let staged: Bound<Staged> = match profiled.stage(Some(image), &TestAuthority, &mut trace) {
        Ok(staged) => staged,
        Err(error) => panic!("{:?}", error),
    };
    assert!(staged.lease.domain.is_some());
    assert!(staged.lease.firmware.is_some());
    assert_eq!(staged.firmware_seal.unwrap().version, 1);
    assert!(trace.platform.cleanup.is_empty());
    staged.shutdown(&mut trace);
    trace.platform.assert_cleanup(&[
        Cleanup::Dma(DmaPurpose::EventRing),
        Cleanup::Dma(DmaPurpose::CommandRing),
        Cleanup::Dma(DmaPurpose::Firmware),
        Cleanup::Bar(0),
        Cleanup::Domain,
    ]);
}

fn step(opcode: u32, words: [u64; 8]) -> HermesBootInstruction {
    HermesBootInstruction {
        instruction_version: 1,
        struct_size: HERMES_INSTRUCTION_BYTES,
        stage: HERMES_BOOT_STAGE_IGNITE,
        opcode,
        words,
    }
}

fn ignite(
    codec: &TestCodec,
    trace: &mut HermesTrace<FaultPlatform>,
    deadline: u64,
) -> Result<u64, HermesFault> {
    let profiled = bind(codec, trace);
    let staged = match profiled.stage(None, &TestAuthority, trace) {
        Ok(staged) => staged,
        Err(error) => panic!("{:?}", error),
    };
    match staged.ignite(deadline, trace) {
        Ok(online) => Ok(online.negotiated_features()),
        Err(fault) => Err(fault),
    }
}

fn reply_to_negotiation(profile: &HermesTransportProfile, epoch: u32) -> HermesNormalizedEvent {
    let mut event = HermesNormalizedEvent::empty();
    event.epoch = epoch;
    event.event_kind = HERMES_EVENT_REPLY;
    event.opcode = HERMES_OPCODE_NEGOTIATE;
    event.correlation_epoch = epoch;
    event.correlation_sequence = 1;
    event.arguments[0] = 0x30;
    event.arguments[1] = u64::from(profile.wire_major) << 32;
    event
}

#[test]
fn ignition_boots_negotiates_and_comes_online() {
    let mut codec = TestCodec::new(false);
    codec.profile.required_features = 0x10;
    codec.program = vec![
        step(HERMES_BOOT_WRITE32, [0, 32, 9, 0, 0, 0, 0, 0]),
        step(HERMES_BOOT_RMW32, [0, 24, 1, 6, 0, 0, 0, 0]),
        step(HERMES_BOOT_ASSERT32, [0, 24, 1, 1, 0, 0, 0, 0]),
        step(HERMES_BOOT_DELAY, [0; 8]),
        step(HERMES_BOOT_FENCE, [0; 8]),
    ];
    let epoch = 1 ^ (1 << 16) ^ (0x2684 << 1) ^ 0x4845_524d;
    codec.event = reply_to_negotiation(&codec.profile, epoch);
    let mut platform = FaultPlatform::new(FaultPoint::Nowhere);
    platform.producer = 1;
    let mut trace = HermesTrace::new(platform);
    assert_eq!(ignite(&codec, &mut trace, 1_000), Ok(0x30));
    assert_eq!(
        trace.platform.writes,
        vec![(32, 9), (24, 6), (0, 1), (16, 1), (12, 1), (20, 1)]
    );
    assert!(trace.platform.cleanup.is_empty());
}

#[test]
fn a_failed_ignition_gives_everything_back() {
    let mut codec = TestCodec::new(false);
    codec.program = vec![step(HERMES_BOOT_ASSERT32, [0, 24, 1, 0, 0, 0, 0, 0])];
    let mut trace = HermesTrace::new(FaultPlatform::new(FaultPoint::Nowhere));
    assert_eq!(
        ignite(&codec, &mut trace, 1_000),
        Err(HermesFault::BootInstructionRejected)
    );
    trace.platform.assert_cleanup(&[
        Cleanup::Dma(DmaPurpose::EventRing),
        Cleanup::Dma(DmaPurpose::CommandRing),
        Cleanup::Bar(0),
        Cleanup::Domain,
    ]);

    let mut platform = FaultPlatform::new(FaultPoint::Nowhere);
    platform.status = 2;
    let mut trace = HermesTrace::new(platform);
    let codec = TestCodec::new(false);
    assert_eq!(
        ignite(&codec, &mut trace, 1_000),
        Err(HermesFault::DeviceFault)
    );

    let mut platform = FaultPlatform::new(FaultPoint::Nowhere);
    platform.status = 0;
    platform.tick_step = 10;
    let mut trace = HermesTrace::new(platform);
    assert_eq!(
        ignite(&codec, &mut trace, 1_000),
        Err(HermesFault::DeadlineExpired)
    );
}

#[test]
fn a_negotiation_is_refused_for_the_first_reason() {
    let mut profile = transport_profile(false);
    profile.required_features = 0x10;
    let mut event = reply_to_negotiation(&profile, 7);
    assert_eq!(negotiation_fault(&profile, (7, 1), &event), None);
    assert_eq!(offered_wire(&profile), 1 << 32);
    assert_eq!(
        negotiation_fault(&profile, (7, 2), &event),
        Some(HermesFault::ProtocolMismatch)
    );
    event.arguments[0] = 0x20;
    assert_eq!(
        negotiation_fault(&profile, (7, 1), &event),
        Some(HermesFault::RequiredFeatureMissing)
    );
    event.arguments[1] = 0;
    assert_eq!(
        negotiation_fault(&profile, (7, 1), &event),
        Some(HermesFault::ProtocolMismatch)
    );
    event.event_kind = HERMES_EVENT_FAULT;
    assert_eq!(
        negotiation_fault(&profile, (7, 1), &event),
        Some(HermesFault::DeviceFault)
    );
}

#[test]
fn a_submission_is_answered_by_its_reply() {
    let mut codec = TestCodec::new(false);
    let mut event = HermesNormalizedEvent::empty();
    event.epoch = 7;
    event.event_kind = HERMES_EVENT_REPLY;
    event.opcode = 0x40;
    event.correlation_epoch = 7;
    event.correlation_sequence = 1;
    codec.event = event;
    let mut trace = HermesTrace::new(FaultPlatform::new(FaultPoint::Nowhere));
    let mut hermes = online(&codec);
    assert_eq!(
        hermes.submit(0x40, 0, 0, [0; 8], &[1, 2, 3], 1_000, &mut trace),
        Ok((7, 1))
    );
    assert_eq!(hermes.runtime.command_producer, 1);
    assert_eq!(hermes.runtime.pending.live_count(), 1);
    assert_eq!(hermes.last_admission_certificate().reservation_sequence, 1);
    assert_eq!(hermes.poll_event(&mut trace), Ok(None));
    trace.platform.producer = 1;
    let received = hermes.poll_event(&mut trace).unwrap().unwrap();
    assert_eq!(
        received.disposition,
        EventDisposition::Reply {
            epoch: 7,
            sequence: 1
        }
    );
    assert_eq!(hermes.runtime.pending.live_count(), 0);
    assert_eq!(hermes.runtime.service.virtual_backlog_q16, 0);
}

#[test]
fn submissions_are_refused_before_the_wire() {
    let codec = TestCodec::new(false);
    let mut trace = HermesTrace::new(FaultPlatform::new(FaultPoint::Nowhere));
    let mut hermes = online(&codec);
    assert_eq!(
        hermes.submit(0, 0, 0, [0; 8], &[], 1_000, &mut trace),
        Err(HermesFault::ProtocolMismatch)
    );
    let long = vec![0u8; HERMES_MAX_NORMALIZED_PAYLOAD + 1];
    assert_eq!(
        hermes.submit(1, 0, 0, [0; 8], &long, 1_000, &mut trace),
        Err(HermesFault::ProtocolMismatch)
    );
    assert_eq!(
        hermes.submit(1, 0, 0, [0; 8], &[], 1, &mut trace),
        Err(HermesFault::DeadlineExpired)
    );
    hermes.runtime.service.refusal = Some(HermesAdmissionFault::DeadlineUnsafe);
    assert_eq!(
        hermes.submit(1, 0, 0, [0; 8], &[], 1_000, &mut trace),
        Err(HermesFault::ServiceDeadlineUnsafe)
    );
    hermes.runtime.service.refusal = None;
    hermes.runtime.command_producer = 2;
    assert_eq!(
        hermes.submit(1, 0, 0, [0; 8], &[], 1_000, &mut trace),
        Err(HermesFault::QueueFull)
    );
    assert_eq!(hermes.runtime.pending.live_count(), 0);
    assert_eq!(hermes.runtime.service.accepted, 0);
    assert!(trace.platform.writes.is_empty());
}

#[test]
fn a_late_command_expires_and_an_unknown_reply_poisons() {
    let mut codec = TestCodec::new(false);
    codec.event.event_kind = HERMES_EVENT_REPLY;
    let mut trace = HermesTrace::new(FaultPlatform::new(FaultPoint::Nowhere));
    let mut hermes = online(&codec);
    hermes
        .submit(0x40, 0, 0, [0; 8], &[], 1_000, &mut trace)
        .unwrap();
    assert_eq!(hermes.expire_one(&mut trace), Ok(None));
    trace.platform.tick = 1_000;
    assert_eq!(hermes.expire_one(&mut trace), Ok(Some((7, 1))));
    trace.platform.producer = 1;
    assert_eq!(
        hermes.poll_event(&mut trace),
        Err(HermesFault::UnknownResponse)
    );
    assert!(hermes.transport_poisoned());
}

#[test]
fn a_fault_event_completes_what_it_names_and_poisons() {
    let mut codec = TestCodec::new(false);
    codec.event.event_kind = HERMES_EVENT_FAULT;
    codec.event.correlation_epoch = 7;
    codec.event.correlation_sequence = 1;
    let mut trace = HermesTrace::new(FaultPlatform::new(FaultPoint::Nowhere));
    let mut hermes = online(&codec);
    hermes
        .submit(0x40, 0, 0, [0; 8], &[], 1_000, &mut trace)
        .unwrap();
    trace.platform.producer = 1;
    assert_eq!(
        hermes.poll_event(&mut trace),
        Err(HermesFault::RecoveryRequired)
    );
    assert!(hermes.transport_poisoned());
    assert_eq!(hermes.runtime.pending.live_count(), 0);
}

#[test]
fn a_late_reply_is_expired_and_a_wrong_one_poisons() {
    let mut codec = TestCodec::new(false);
    codec.event.event_kind = HERMES_EVENT_REPLY;
    codec.event.opcode = 0x40;
    codec.event.correlation_epoch = 7;
    codec.event.correlation_sequence = 1;
    for (tick, opcode, expected, poisoned) in [
        (1_000, 0x40, HermesFault::ResponseExpired, false),
        (1, 0x41, HermesFault::ResponseMismatch, true),
    ] {
        codec.event.opcode = opcode;
        let mut trace = HermesTrace::new(FaultPlatform::new(FaultPoint::Nowhere));
        let mut hermes = online(&codec);
        hermes
            .submit(0x40, 0, 0, [0; 8], &[], 1_000, &mut trace)
            .unwrap();
        trace.platform.producer = 1;
        trace.platform.tick = tick;
        assert_eq!(hermes.poll_event(&mut trace), Err(expected));
        assert_eq!(hermes.transport_poisoned(), poisoned);
    }
}
