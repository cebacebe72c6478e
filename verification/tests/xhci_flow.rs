use boulder_drivers::device_census::{
    BindingAuthorization, DeviceAddress, DeviceCensus, DeviceFamily, DriverBindingManifest,
    PciFunctionEvidence, AUTHORITY_MMIO, EVIDENCE_CLASS_TUPLE, EVIDENCE_IDENTITY,
    EVIDENCE_PCI_CONFIGURATION,
};
use boulder_drivers::drivernet::fingerprint::{
    ConfigurationTrace, FingerprintError, PciConfigReader, PciFunctionAddress,
};
use boulder_drivers::mmio::{MmioAccessError, MmioTrace, RegisterAccess, RegisterWindow};
use boulder_drivers::pci::{Bar0ApertureLease, Bar0ApertureRange, PciAddress, PciDevice};
use boulder_drivers::xhci::{
    activate_reset_ready, activation_containment_root, boot_xhci_summary, boot_xhci_terminal_root,
    probe_bootstrap, publish_boot_xhci, ReadyHalted, TakeoverConfig, TakeoverFaultClass,
    RegisterBoundary, TakeoverHost, TakeoverPhase, TakeoverTrace, XhciActivationError,
    XhciActivationFailure,
    XhciBootstrap, XhciDebtClass, XhciMutationDebt, XhciProbeCensus, XhciProbeError,
    XhciRegisterError, XhciRegisterTransport, XhciResetReadyController, XHCI_PROBE_DRIVER_ID,
};
use boulder_drivers::xhci_ports::{
    observe_port, survey_halted_ports, PortTrace, XhciPortProtocol, XhciPortSurveyError,
    XhciPortSurveyInvariant, XhciRuntimeRegisters,
};
use boulder_drivers::xhci_protocol::{CheckedSupportedProtocolRead, ProtocolTrace, USB_PROTOCOL_NAME};

const BASE: u64 = 0x1_febf_0000;

fn controller_device() -> PciDevice {
    PciDevice {
        address: PciAddress::new(0, 5, 0).unwrap(),
        vendor_id: 0x1234,
        device_id: 0x5678,
        class_code: 0x0c,
        subclass: 0x03,
        programming_interface: 0x30,
        revision: 1,
        header_type: 0,
        interrupt_line: 11,
        interrupt_pin: 1,
        command: 0x0007,
        bar_count: 6,
        raw_bars: [0xfebf_0004, 1, 0, 0, 0, 0],
    }
}

fn authorized() -> (BindingAuthorization, PciFunctionEvidence) {
    let mut census = DeviceCensus::<4>::measure_functions(&[controller_device()], 7, None)
        .ok()
        .unwrap();
    let evidence = census.evidence()[0];
    let manifest = DriverBindingManifest {
        driver_id: XHCI_PROBE_DRIVER_ID,
        family: DeviceFamily::UsbHostController,
        vendor_id: 0xffff,
        device_id_mask: 0,
        device_id_value: 0,
        class_code_mask: u8::MAX,
        class_code_value: 0x0c,
        subclass_mask: u8::MAX,
        subclass_value: 0x03,
        programming_interface_mask: u8::MAX,
        programming_interface_value: 0x30,
        revision_minimum: 0,
        revision_maximum: u8::MAX,
        required_evidence: EVIDENCE_IDENTITY | EVIDENCE_CLASS_TUPLE | EVIDENCE_PCI_CONFIGURATION,
        requested_authority: AUTHORITY_MMIO,
    };
    let claim = census
        .claim_family::<1>(manifest, AUTHORITY_MMIO)
        .ok()
        .unwrap()
        .claims()[0];
    let authorization = census
        .authorize(claim, XHCI_PROBE_DRIVER_ID, AUTHORITY_MMIO)
        .ok()
        .unwrap();
    (authorization, evidence)
}

struct Configuration;

impl PciConfigReader for Configuration {
    fn maximum_offset(&mut self) -> u16 {
        0x3c
    }

    fn read_u32(
        &mut self,
        _address: PciFunctionAddress,
        offset: u16,
    ) -> Result<u32, FingerprintError> {
        Ok(match offset {
            0 => 0x5678_1234,
            4 => 0x0000_0007,
            8 => 0x0c03_3001,
            0x10 => 0xfebf_0004,
            0x14 => 1,
            _ => 0,
        })
    }
}

fn register_word(offset: u64) -> u32 {
    match offset {
        0 => 0x0100_0040,
        4 => (2 << 24) | (1 << 8) | 8,
        0x10 => 1 | (0x80 << 16),
        0x14 => 0x1000,
        0x18 => 0x2000,
        0x200 => 2 | (8 << 8) | (2 << 24),
        0x204 => USB_PROTOCOL_NAME,
        0x208 => 1 | (1 << 8),
        0x220 => 2 | (3 << 24),
        0x224 => USB_PROTOCOL_NAME,
        0x228 => 2 | (1 << 8),
        _ => 0,
    }
}

struct Registers {
    mapped: u64,
    open: bool,
}

impl RegisterWindow for Registers {
    fn map(&mut self, physical: u64, _length: usize) -> Result<(), MmioAccessError> {
        self.mapped = physical;
        self.open = true;
        Ok(())
    }

    fn read_u32(&mut self, offset: usize) -> Result<u32, MmioAccessError> {
        Ok(register_word(self.mapped - BASE + offset as u64))
    }

    fn access(&mut self, _access: RegisterAccess) -> Result<u32, MmioAccessError> {
        Ok(register_word(self.mapped - BASE))
    }

    fn close(&mut self) -> i32 {
        self.open = false;
        0
    }
}

struct ProtocolRegisters;

impl CheckedSupportedProtocolRead for ProtocolRegisters {
    type Error = u8;

    fn read_u32(&mut self, range: Bar0ApertureRange) -> Result<u32, u8> {
        Ok(register_word(range.physical_address() - BASE))
    }
}

fn bootstrap() -> XhciBootstrap {
    let (authorization, evidence) = authorized();
    let mut registers = MmioTrace::new(Registers {
        mapped: 0,
        open: false,
    });
    let bootstrap = probe_bootstrap(
        authorization,
        evidence,
        &mut ConfigurationTrace::new(Configuration),
        &mut registers,
        9,
    )
    .ok()
    .unwrap();
    assert!(!registers.window.open);
    bootstrap
}

struct Machine {
    phase: TakeoverPhase,
    steps: u32,
    fault: Option<TakeoverFaultClass>,
    measured_bytes: u64,
}

impl Machine {
    fn new() -> Self {
        Machine {
            phase: TakeoverPhase::ObserveLegacyOwnership,
            steps: 0,
            fault: None,
            measured_bytes: 0x1_0000,
        }
    }
}

impl TakeoverHost for Machine {
    type Error = u8;

    fn configure(&mut self, config: TakeoverConfig) -> Result<(), u8> {
        assert_eq!(config.operational_offset, 0x40);
        assert_eq!(config.legacy_support_offset, None);
        assert_eq!(config.maximum_ports, 2);
        Ok(())
    }

    fn phase(&mut self) -> TakeoverPhase {
        self.phase
    }

    fn measure(&mut self, device: PciDevice) -> Result<Option<Bar0ApertureLease>, u8> {
        assert_eq!(device, controller_device());
        Ok(Some(Bar0ApertureLease {
            address: device.address,
            physical_base: BASE,
            length: self.measured_bytes,
        }))
    }

    fn bind(&mut self, length: u64) -> Result<(), u8> {
        assert_eq!(length, self.measured_bytes);
        self.phase = TakeoverPhase::RequestReset;
        Ok(())
    }

    fn step(
        &mut self,
        registers: XhciRegisterTransport<'_>,
    ) -> Result<Option<ReadyHalted>, TakeoverFaultClass> {
        self.steps += 1;
        assert_eq!(registers.physical_range(0x40, 4), Ok(BASE + 0x40));
        let measured = matches!(
            self.phase,
            TakeoverPhase::RequestReset | TakeoverPhase::AwaitReset
        );
        assert_eq!(
            matches!(registers.boundary, RegisterBoundary::Measured(_)),
            measured
        );
        if let Some(class) = self.fault {
            if self.phase == TakeoverPhase::RequestReset {
                return Err(class);
            }
        }
        match self.phase {
            TakeoverPhase::ObserveLegacyOwnership => {
                self.phase = TakeoverPhase::RequestHalt;
                Ok(None)
            }
            TakeoverPhase::RequestHalt => {
                self.phase = TakeoverPhase::AwaitMeasuredAperture;
                Ok(None)
            }
            _ => Ok(Some(ReadyHalted {
                measured_aperture_bytes: 0x1_0000,
                command: 0,
                status: 1,
                legacy_handoff_performed: false,
                ports_observed: 2,
            })),
        }
    }
}

fn activate(
    machine: Machine,
) -> Result<XhciResetReadyController, XhciActivationFailure<u8, u8>> {
    activate_reset_ready(
        bootstrap(),
        &mut TakeoverTrace::new(machine),
        &mut ProtocolTrace::new(ProtocolRegisters),
        9,
    )
}

#[test]
fn a_probe_reads_the_geometry_and_the_headers() {
    let probed = bootstrap();
    assert_eq!(probed.snapshot.mmio_base, BASE);
    assert_eq!(probed.snapshot.maximum_ports, 2);
    assert_eq!(probed.snapshot.bootstrap_header_count, 2);
    assert_eq!(probed.snapshot.legacy_support_offset, 0);
    assert_eq!(probed.journal.ranges().len(), 2);
    let (authorization, mut evidence) = authorized();
    evidence.subclass = 4;
    assert_eq!(
        probe_bootstrap(
            authorization,
            evidence,
            &mut ConfigurationTrace::new(Configuration),
            &mut MmioTrace::new(Registers {
                mapped: 0,
                open: false
            }),
            9,
        )
        .err(),
        Some(XhciProbeError::WrongClass)
    );
}

#[test]
fn a_reset_controller_is_retained_and_summarized() {
    let controller = activate(Machine::new()).ok().unwrap();
    assert_eq!(controller.protocols().protocol_count(), 2);
    assert_ne!(controller.reset_ready_root(), 0);
    let address = controller.snapshot().address;
    let mut census = XhciProbeCensus::new(9).ok().unwrap();
    let root = controller.reset_ready_root();
    census.insert_reset_ready(controller).ok().unwrap();
    let summary = census.summary();
    assert_eq!(summary.controllers, 1);
    assert_eq!(summary.reset_ready_controllers, 1);
    assert_eq!(summary.total_ports, 2);
    assert_eq!(summary.usb2_ports, 1);
    assert_eq!(summary.usb3_ports, 1);
    assert_eq!(summary.measured_aperture_bytes, 0x1_0000);
    let mut published = None;
    publish_boot_xhci(&mut published, census).ok().unwrap();
    assert_eq!(boot_xhci_summary(&published), Some(summary));
    assert_eq!(boot_xhci_terminal_root(&published, address), Some(root));
    assert_eq!(
        publish_boot_xhci(&mut published, XhciProbeCensus::new(9).ok().unwrap()).err(),
        Some(XhciProbeError::AlreadyPublished)
    );
}

#[test]
fn a_controller_is_counted_once() {
    let mut census = XhciProbeCensus::new(9).ok().unwrap();
    let snapshot = bootstrap().snapshot;
    census.insert(snapshot).ok().unwrap();
    assert_eq!(
        census.insert(snapshot).err(),
        Some(XhciProbeError::DuplicateAddress)
    );
    assert!(XhciProbeCensus::new(0).is_err());
}

#[test]
fn a_faulted_machine_leaves_a_debt_with_its_aperture() {
    let mut machine = Machine::new();
    machine.fault = Some(TakeoverFaultClass::Timeout);
    let failure = activate(machine).err().unwrap();
    assert!(failure.mutated());
    assert_eq!(failure.phase(), TakeoverPhase::RequestReset);
    assert_eq!(failure.debt_class(), XhciDebtClass::Timeout);
    assert!(matches!(
        failure.error(),
        XhciActivationError::Machine {
            phase: TakeoverPhase::RequestReset,
            class: TakeoverFaultClass::Timeout
        }
    ));
    let snapshot = failure.snapshot();
    assert_ne!(
        activation_containment_root(
            9,
            snapshot,
            TakeoverPhase::RequestReset,
            XhciDebtClass::Timeout,
            true
        ),
        activation_containment_root(
            9,
            snapshot,
            TakeoverPhase::RequestReset,
            XhciDebtClass::Deadline,
            true
        )
    );
    let (bootstrap, aperture) = failure.into_parts();
    assert!(aperture.is_some());
    let debt = XhciMutationDebt::retain(
        bootstrap,
        aperture,
        TakeoverPhase::RequestReset,
        XhciDebtClass::Timeout,
        9,
    )
    .ok()
    .unwrap();
    assert_ne!(debt.debt_root(9), 0);
    assert_eq!(debt.debt_root(10), 0);
    let mut census = XhciProbeCensus::new(9).ok().unwrap();
    census.insert_mutation_debt(debt).ok().unwrap();
    assert_eq!(census.summary().mutation_debts, 1);
}

#[test]
fn registers_stop_at_their_boundary() {
    let probed = bootstrap();
    let transport = XhciRegisterTransport::bootstrap(&probed);
    assert_eq!(transport.physical_range(0xf_fffc, 4), Ok(BASE + 0xf_fffc));
    assert_eq!(
        transport.physical_range(0xf_fffd, 4),
        Err(XhciRegisterError::OutsideBootstrapContainment)
    );
    let aperture = Bar0ApertureLease {
        address: PciAddress::new(0, 5, 0).unwrap(),
        physical_base: BASE,
        length: 0x100,
    };
    let measured = XhciRegisterTransport::measured(&aperture);
    let mut trace = MmioTrace::new(Registers {
        mapped: 0,
        open: false,
    });
    assert_eq!(measured.read32(0x14, &mut trace), Ok(0x1000));
    assert!(measured.read32(0x100, &mut trace).is_err());
}

struct Ports {
    halted: bool,
}

impl XhciRuntimeRegisters for Ports {
    type Error = u8;

    fn read32(&mut self, offset: u32) -> Result<u32, u8> {
        Ok(match offset {
            0x44 if self.halted => 1,
            0x440 => 0x0000_0e03,
            0x450 => 0x0000_02a0,
            _ => 0,
        })
    }
}

#[test]
fn a_survey_observes_both_ports() {
    let controller = activate(Machine::new()).ok().unwrap();
    let survey = survey_halted_ports(&controller, &mut PortTrace::new(Ports { halted: true }), 9)
        .unwrap();
    assert_eq!(survey.observations().len(), 2);
    assert_eq!(survey.connected_ports, 1);
    assert_eq!(survey.enabled_ports, 1);
    assert_eq!(survey.observations()[0].protocol, XhciPortProtocol::Usb2);
    assert_eq!(survey.observations()[1].protocol, XhciPortProtocol::Usb3);
    assert_eq!(
        survey.observations()[0],
        observe_port(1, XhciPortProtocol::Usb2, 0x0000_0e03)
    );
    assert_eq!(survey.observations()[0].speed_id, 3);
    assert_eq!(survey.observations()[1].link_state, 5);
    assert_eq!(
        survey_halted_ports(&controller, &mut PortTrace::new(Ports { halted: false }), 9),
        Err(XhciPortSurveyError::Invariant(
            XhciPortSurveyInvariant::ControllerNotHalted
        ))
    );
    assert_eq!(
        survey_halted_ports(&controller, &mut PortTrace::new(Ports { halted: true }), 0),
        Err(XhciPortSurveyError::Invariant(
            XhciPortSurveyInvariant::InvalidSecret
        ))
    );
    let _: DeviceAddress = controller.snapshot().address;
}
