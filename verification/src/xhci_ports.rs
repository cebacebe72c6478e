//! A survey of the root ports of a halted xHCI controller.
//!
//! It reads port state before any DMA, interrupt or enumeration is set up, and
//! does not claim that a connected device works.

use crate::seal::Sealer;
use crate::xhci::XhciResetReadyController;
use crate::xhci_protocol::{SupportedProtocol, UsbProtocolKind};
use vstd::prelude::*;

verus! {

pub const USBCMD_RUN_STOP: u32 = 1;

pub const USBSTS_HCHALTED: u32 = 1;

pub const USBSTS_HOST_CONTROLLER_ERROR: u32 = 4;

pub const PORTSC_BASE: u32 = 0x400;

pub const PORTSC_STRIDE: u32 = 0x10;

pub const PORT_CONNECT: u32 = 1;

pub const PORT_ENABLED: u32 = 2;

pub const PORT_OVERCURRENT: u32 = 8;

pub const PORT_RESET: u32 = 0x10;

pub const PORT_LINK_STATE_SHIFT: u32 = 5;

pub const PORT_LINK_STATE_MASK: u32 = 0x01e0;

pub const PORT_SPEED_SHIFT: u32 = 10;

pub const PORT_SPEED_MASK: u32 = 0x3c00;

pub const PORT_ROOT_DOMAIN: u64 = 0x5848_4349_504f_5254;

#[derive(Clone, Copy, Debug, PartialEq, Eq, Structural)]
pub enum XhciPortProtocol {
    Usb2,
    Usb3,
    Unclassified,
}

#[derive(Clone, Copy, Debug, PartialEq, Eq, Structural)]
pub struct XhciPortObservation {
    pub port_id: u8,
    pub protocol: XhciPortProtocol,
    pub connected: bool,
    pub enabled: bool,
    pub reset_active: bool,
    pub overcurrent: bool,
    pub link_state: u8,
    pub speed_id: u8,
    pub portsc: u32,
}

/// What a port's status word tells.
#[verifier::allow_in_spec]
pub fn observe_port(port_id: u8, protocol: XhciPortProtocol, portsc: u32) -> XhciPortObservation
    returns
        (XhciPortObservation {
            port_id,
            protocol,
            connected: portsc & PORT_CONNECT != 0,
            enabled: portsc & PORT_ENABLED != 0,
            reset_active: portsc & PORT_RESET != 0,
            overcurrent: portsc & PORT_OVERCURRENT != 0,
            link_state: ((portsc & PORT_LINK_STATE_MASK) >> PORT_LINK_STATE_SHIFT) as u8,
            speed_id: ((portsc & PORT_SPEED_MASK) >> PORT_SPEED_SHIFT) as u8,
            portsc,
        }),
{
    XhciPortObservation {
        port_id,
        protocol,
        connected: portsc & PORT_CONNECT != 0,
        enabled: portsc & PORT_ENABLED != 0,
        reset_active: portsc & PORT_RESET != 0,
        overcurrent: portsc & PORT_OVERCURRENT != 0,
        link_state: ((portsc & PORT_LINK_STATE_MASK) >> PORT_LINK_STATE_SHIFT) as u8,
        speed_id: ((portsc & PORT_SPEED_MASK) >> PORT_SPEED_SHIFT) as u8,
        portsc,
    }
}

#[derive(Clone, Debug, PartialEq, Eq)]
pub struct XhciPortSurvey {
    pub observations: Vec<XhciPortObservation>,
    pub connected_ports: u8,
    pub enabled_ports: u8,
    pub reset_active_ports: u8,
    pub overcurrent_ports: u8,
    pub root: u64,
}

impl XhciPortSurvey {
    pub fn observations(&self) -> (observations: &[XhciPortObservation])
        ensures
            observations@ == self.observations@,
    {
        self.observations.as_slice()
    }
}

#[derive(Clone, Copy, Debug, PartialEq, Eq, Structural)]
pub enum XhciPortSurveyInvariant {
    InvalidSecret,
    ControllerNotHalted,
    ControllerError,
    RegisterOffsetOverflow,
    RegisterOutsideAperture,
}

#[derive(Debug, PartialEq, Eq)]
pub enum XhciPortSurveyError<RegisterError> {
    Invariant(XhciPortSurveyInvariant),
    Register(RegisterError),
}

/// Read access to the registers of a controller.
pub trait XhciRuntimeRegisters {
    type Error;

    /// All that was read.
    open spec fn history(&self) -> Seq<PortRead<Self::Error>> {
        arbitrary()
    }

    fn read32(&mut self, offset: u32) -> (reply: Result<u32, Self::Error>)
        ensures
            final(self).history() == old(self).history().push(PortRead { offset, reply }),
    ;
}

/// Registers that are lent.
impl<R: XhciRuntimeRegisters> XhciRuntimeRegisters for &mut R {
    type Error = R::Error;

    open spec fn history(&self) -> Seq<PortRead<R::Error>> {
        (**self).history()
    }

    fn read32(&mut self, offset: u32) -> (reply: Result<u32, R::Error>) {
        (**self).read32(offset)
    }
}

/// One register read.
pub struct PortRead<E> {
    pub offset: u32,
    pub reply: Result<u32, E>,
}

/// The registers of a survey. Its transcript is their history.
pub struct PortTrace<R: XhciRuntimeRegisters> {
    pub registers: R,
}

/// What a read gave at a place of the transcript.
pub open spec fn port_read_at<E>(log: Seq<PortRead<E>>, at: int, offset: u32) -> Option<
    Result<u32, E>,
> {
    if 0 <= at < log.len() && log[at].offset == offset {
        Some(log[at].reply)
    } else {
        None
    }
}

impl<R: XhciRuntimeRegisters> PortTrace<R> {
    pub open spec fn log(&self) -> Seq<PortRead<R::Error>> {
        self.registers.history()
    }

    pub fn new(registers: R) -> (trace: Self)
        ensures
            trace.registers == registers,
    {
        PortTrace { registers }
    }

    fn read32(&mut self, offset: u32) -> (reply: Result<u32, R::Error>)
        ensures
            final(self).log() == old(self).log().push(PortRead { offset, reply }),
    {
        let reply = self.registers.read32(offset);
        reply
    }
}

/// The protocol of a port: that of the first capability which covers it.
pub open spec fn protocol_of_port(
    protocols: Seq<SupportedProtocol>,
    port_id: u8,
    from: int,
) -> XhciPortProtocol
    decreases protocols.len() - from,
{
    if from < 0 || from >= protocols.len() {
        XhciPortProtocol::Unclassified
    } else if port_in_range(protocols[from], port_id) {
        match protocols[from].kind {
            UsbProtocolKind::Usb2 => XhciPortProtocol::Usb2,
            UsbProtocolKind::Usb3 => XhciPortProtocol::Usb3,
        }
    } else {
        protocol_of_port(protocols, port_id, from + 1)
    }
}

/// Whether a port lies in the range that a capability names. A range without
/// ports counts as its first port alone, and one past the last number ends
/// there.
#[verifier::allow_in_spec]
pub fn port_in_range(protocol: SupportedProtocol, port_id: u8) -> bool
    returns
        (protocol.first_port <= port_id && (port_id == protocol.first_port || port_id
            < protocol.first_port + protocol.port_count)),
{
    let last: u8 = protocol.first_port.saturating_add(protocol.port_count.saturating_sub(1));
    port_id >= protocol.first_port && port_id <= last
}

fn protocol_for_port(protocols: &[SupportedProtocol], port_id: u8) -> (protocol: XhciPortProtocol)
    ensures
        protocol == protocol_of_port(protocols@, port_id, 0),
{
    let mut index: usize = 0;
    while index < protocols.len()
        invariant
            index <= protocols@.len(),
            protocol_of_port(protocols@, port_id, 0) == protocol_of_port(
                protocols@,
                port_id,
                index as int,
            ),
        decreases protocols@.len() - index,
    {
        if port_in_range(protocols[index], port_id) {
            return match protocols[index].kind {
                UsbProtocolKind::Usb2 => XhciPortProtocol::Usb2,
                UsbProtocolKind::Usb3 => XhciPortProtocol::Usb3,
            };
        }
        index = index + 1;
    }
    XhciPortProtocol::Unclassified
}

/// The status register of a port.
#[verifier::allow_in_spec]
pub fn portsc_offset(operational_offset: u8, port_id: u8) -> u32
    requires
        port_id >= 1,
    returns
        ((operational_offset + PORTSC_BASE + (port_id - 1) * PORTSC_STRIDE) as u32),
{
    operational_offset as u32 + PORTSC_BASE + (port_id - 1) as u32 * PORTSC_STRIDE
}

/// What a survey reads of its controller.
pub struct SurveySubject {
    pub operational_offset: u8,
    pub maximum_ports: u8,
    pub reset_ready_root: u64,
    pub aperture_bytes: u64,
    pub protocols: Seq<SupportedProtocol>,
}

pub open spec fn survey_subject(controller: XhciResetReadyController) -> SurveySubject {
    SurveySubject {
        operational_offset: controller.bootstrap.snapshot.capability_length,
        maximum_ports: controller.bootstrap.snapshot.maximum_ports,
        reset_ready_root: controller.reset_ready_root,
        aperture_bytes: controller.aperture.length,
        protocols: controller.protocols.protocols@,
    }
}

/// The observations of a survey, read on from those that were made already.
pub open spec fn ports_run<E>(
    subject: SurveySubject,
    observed: Seq<XhciPortObservation>,
    log: Seq<PortRead<E>>,
    at: int,
) -> Option<(Result<Seq<XhciPortObservation>, XhciPortSurveyError<E>>, int)>
    decreases subject.maximum_ports - observed.len(),
{
    if observed.len() >= subject.maximum_ports {
        Some((Ok(observed), at))
    } else {
        let port_id = (observed.len() + 1) as u8;
        let offset = portsc_offset(subject.operational_offset, port_id);
        if offset + 4 > subject.aperture_bytes {
            Some(
                (
                    Err(
                        XhciPortSurveyError::Invariant(
                            XhciPortSurveyInvariant::RegisterOutsideAperture,
                        ),
                    ),
                    at,
                ),
            )
        } else {
            match port_read_at(log, at, offset) {
                None => None,
                Some(Err(error)) => Some((Err(XhciPortSurveyError::Register(error)), at + 1)),
                Some(Ok(portsc)) => ports_run(
                    subject,
                    observed.push(
                        observe_port(
                            port_id,
                            protocol_of_port(subject.protocols, port_id, 0),
                            portsc,
                        ),
                    ),
                    log,
                    at + 1,
                ),
            }
        }
    }
}

/// A survey of a halted controller, by the transcript.
pub open spec fn survey_run<E>(
    subject: SurveySubject,
    secret: u64,
    log: Seq<PortRead<E>>,
    at: int,
) -> Option<(Result<Seq<XhciPortObservation>, XhciPortSurveyError<E>>, int)> {
    let operational = subject.operational_offset as u32;
    if secret == 0 {
        Some(
            (
                Err(XhciPortSurveyError::Invariant(XhciPortSurveyInvariant::InvalidSecret)),
                at,
            ),
        )
    } else {
        match port_read_at(log, at, operational) {
            None => None,
            Some(Err(error)) => Some((Err(XhciPortSurveyError::Register(error)), at + 1)),
            Some(Ok(command)) => match port_read_at(log, at + 1, (operational + 4) as u32) {
                None => None,
                Some(Err(error)) => Some((Err(XhciPortSurveyError::Register(error)), at + 2)),
                Some(Ok(status)) => if command & USBCMD_RUN_STOP != 0 || status & USBSTS_HCHALTED
                    == 0 {
                    Some(
                        (
                            Err(
                                XhciPortSurveyError::Invariant(
                                    XhciPortSurveyInvariant::ControllerNotHalted,
                                ),
                            ),
                            at + 2,
                        ),
                    )
                } else if status & USBSTS_HOST_CONTROLLER_ERROR != 0 {
                    Some(
                        (
                            Err(
                                XhciPortSurveyError::Invariant(
                                    XhciPortSurveyInvariant::ControllerError,
                                ),
                            ),
                            at + 2,
                        ),
                    )
                } else {
                    ports_run(subject, Seq::empty(), log, at + 2)
                },
            },
        }
    }
}

/// How many observations have a property.
pub open spec fn count_of(
    observed: Seq<XhciPortObservation>,
    property: spec_fn(XhciPortObservation) -> bool,
) -> int
    decreases observed.len(),
{
    if observed.len() == 0 {
        0
    } else {
        count_of(observed.drop_last(), property) + if property(observed.last()) {
            1int
        } else {
            0int
        }
    }
}

/// The words that a survey root seals.
pub open spec fn survey_words(reset_ready_root: u64, observed: Seq<XhciPortObservation>) -> Seq<u64>
    decreases observed.len(),
{
    if observed.len() == 0 {
        seq![reset_ready_root]
    } else {
        survey_words(reset_ready_root, observed.drop_last()).push(
            observed.last().port_id as u64,
        ).push(observed.last().portsc as u64)
    }
}

/// Whether a survey says what was observed.
pub open spec fn surveys(
    survey: XhciPortSurvey,
    subject: SurveySubject,
    secret: u64,
    observed: Seq<XhciPortObservation>,
) -> bool {
    let root = crate::seal::seal_of(
        secret ^ PORT_ROOT_DOMAIN,
        survey_words(subject.reset_ready_root, observed),
    );
    &&& survey.observations@ == observed
    &&& survey.connected_ports == count_of(observed, |o: XhciPortObservation| o.connected)
    &&& survey.enabled_ports == count_of(observed, |o: XhciPortObservation| o.enabled)
    &&& survey.reset_active_ports == count_of(observed, |o: XhciPortObservation| o.reset_active)
    &&& survey.overcurrent_ports == count_of(observed, |o: XhciPortObservation| o.overcurrent)
    &&& survey.root == if root == 0 {
        PORT_ROOT_DOMAIN
    } else {
        root
    }
}

fn summarize(
    observations: Vec<XhciPortObservation>,
    reset_ready_root: u64,
    secret: u64,
    Ghost(subject): Ghost<SurveySubject>,
) -> (survey: XhciPortSurvey)
    requires
        observations@.len() <= 255,
        subject.reset_ready_root == reset_ready_root,
    ensures
        surveys(survey, subject, secret, observations@),
{
    let mut connected: u8 = 0;
    let mut enabled: u8 = 0;
    let mut resetting: u8 = 0;
    let mut overcurrent: u8 = 0;
    let mut sealer = Sealer::new(secret ^ PORT_ROOT_DOMAIN).word(reset_ready_root);
    let mut index: usize = 0;
    assert(observations@.take(0) =~= Seq::<XhciPortObservation>::empty());
    assert(sealer.words() =~= survey_words(reset_ready_root, observations@.take(0)));
    while index < observations.len()
        invariant
            index <= observations@.len() <= 255,
            connected <= index,
            enabled <= index,
            resetting <= index,
            overcurrent <= index,
            connected == count_of(
                observations@.take(index as int),
                |o: XhciPortObservation| o.connected,
            ),
            enabled == count_of(
                observations@.take(index as int),
                |o: XhciPortObservation| o.enabled,
            ),
            resetting == count_of(
                observations@.take(index as int),
                |o: XhciPortObservation| o.reset_active,
            ),
            overcurrent == count_of(
                observations@.take(index as int),
                |o: XhciPortObservation| o.overcurrent,
            ),
            sealer.seed() == secret ^ PORT_ROOT_DOMAIN,
            sealer.words() == survey_words(reset_ready_root, observations@.take(index as int)),
        decreases observations@.len() - index,
    {
        proof {
            assert(observations@.take(index + 1).drop_last() =~= observations@.take(
                index as int,
            ));
        }
        let observation = observations[index];
        if observation.connected {
            connected = connected + 1;
        }
        if observation.enabled {
            enabled = enabled + 1;
        }
        if observation.reset_active {
            resetting = resetting + 1;
        }
        if observation.overcurrent {
            overcurrent = overcurrent + 1;
        }
        sealer = sealer.word(observation.port_id as u64).word(observation.portsc as u64);
        index = index + 1;
    }
    assert(observations@.take(index as int) =~= observations@);
    let root: u64 = sealer.root();
    XhciPortSurvey {
        observations,
        connected_ports: connected,
        enabled_ports: enabled,
        reset_active_ports: resetting,
        overcurrent_ports: overcurrent,
        root: if root == 0 {
            PORT_ROOT_DOMAIN
        } else {
            root
        },
    }
}

fn read_ports<R: XhciRuntimeRegisters>(
    controller: &XhciResetReadyController,
    trace: &mut PortTrace<R>,
) -> (result: Result<Vec<XhciPortObservation>, XhciPortSurveyError<R::Error>>)
    ensures
        crate::trace::continues(final(trace).log(), old(trace).log()),
        forall|log: Seq<PortRead<R::Error>>| #[trigger]
            crate::trace::continues(log, final(trace).log()) ==> ports_run(
                survey_subject(*controller),
                Seq::empty(),
                log,
                old(trace).log().len() as int,
            ) == Some(
                (
                    match result {
                        Ok(observed) => Ok::<
                            Seq<XhciPortObservation>,
                            XhciPortSurveyError<R::Error>,
                        >(observed@),
                        Err(error) => Err(error),
                    },
                    final(trace).log().len() as int,
                ),
            ),
        result matches Ok(observed) ==> observed@.len() <= 255,
{
    let snapshot = controller.snapshot();
    let ghost subject = survey_subject(*controller);
    let mut observed: Vec<XhciPortObservation> = Vec::new();
    let mut count: u8 = 0;
    while count < snapshot.maximum_ports
        invariant
            count <= snapshot.maximum_ports,
            observed@.len() == count,
            snapshot == controller.bootstrap.snapshot,
            subject == survey_subject(*controller),
            crate::trace::continues(trace.log(), old(trace).log()),
            forall|log: Seq<PortRead<R::Error>>| #[trigger]
                crate::trace::continues(log, trace.log()) ==> ports_run(
                    subject,
                    Seq::empty(),
                    log,
                    old(trace).log().len() as int,
                ) == ports_run(subject, observed@, log, trace.log().len() as int),
        decreases snapshot.maximum_ports - count,
    {
        let port_id: u8 = count + 1;
        let offset: u32 = portsc_offset(snapshot.capability_length, port_id);
        if offset as u64 + 4 > controller.aperture.length {
            return Err(
                XhciPortSurveyError::Invariant(XhciPortSurveyInvariant::RegisterOutsideAperture),
            );
        }
        let ghost head = trace.log();
        let read = trace.read32(offset);
        assert forall|log: Seq<PortRead<R::Error>>| #[trigger]
            crate::trace::continues(log, trace.log()) implies crate::trace::continues(log, head)
            && log[head.len() as int] == trace.log()[head.len() as int] by {}
        let portsc: u32 = match read {
            Err(error) => {
                return Err(XhciPortSurveyError::Register(error));
            },
            Ok(portsc) => portsc,
        };
        let protocol = protocol_for_port(controller.protocols.protocols(), port_id);
        observed.push(observe_port(port_id, protocol, portsc));
        count = count + 1;
    }
    Ok(observed)
}

/// Surveys the ports of a controller that is halted and not in error.
pub fn survey_halted_ports<R: XhciRuntimeRegisters>(
    controller: &XhciResetReadyController,
    trace: &mut PortTrace<R>,
    secret: u64,
) -> (result: Result<XhciPortSurvey, XhciPortSurveyError<R::Error>>)
    ensures
        crate::trace::continues(final(trace).log(), old(trace).log()),
        forall|log: Seq<PortRead<R::Error>>| #[trigger]
            crate::trace::continues(log, final(trace).log()) ==> match survey_run(
                survey_subject(*controller),
                secret,
                log,
                old(trace).log().len() as int,
            ) {
                Some((Ok(observed), after)) => result matches Ok(survey) && surveys(
                    survey,
                    survey_subject(*controller),
                    secret,
                    observed,
                ) && after == final(trace).log().len(),
                Some((Err(error), after)) => result == Err::<XhciPortSurvey, _>(error) && after
                    == final(trace).log().len(),
                None => false,
            },
{
    if secret == 0 {
        return Err(XhciPortSurveyError::Invariant(XhciPortSurveyInvariant::InvalidSecret));
    }
    let ghost start = trace.log().len() as int;
    let operational_offset: u32 = controller.bootstrap.snapshot.capability_length as u32;
    let read = trace.read32(operational_offset);
    assert(trace.log()[start] == PortRead { offset: operational_offset, reply: read });
    let command: u32 = match read {
        Err(error) => {
            return Err(XhciPortSurveyError::Register(error));
        },
        Ok(command) => command,
    };
    let ghost one = trace.log();
    let read = trace.read32(operational_offset + 4);
    assert(trace.log()[start] == one[start]);
    assert(trace.log()[start + 1].offset == operational_offset + 4);
    let status: u32 = match read {
        Err(error) => {
            return Err(XhciPortSurveyError::Register(error));
        },
        Ok(status) => status,
    };
    if command & USBCMD_RUN_STOP != 0 || status & USBSTS_HCHALTED == 0 {
        return Err(
            XhciPortSurveyError::Invariant(XhciPortSurveyInvariant::ControllerNotHalted),
        );
    }
    if status & USBSTS_HOST_CONTROLLER_ERROR != 0 {
        return Err(XhciPortSurveyError::Invariant(XhciPortSurveyInvariant::ControllerError));
    }
    let ghost two = trace.log();
    let ports = read_ports(controller, trace);
    assert forall|log: Seq<PortRead<R::Error>>| #[trigger]
        crate::trace::continues(log, trace.log()) implies crate::trace::continues(log, two)
        && log[start] == one[start] && log[start + 1] == two[start + 1] by {
        assert(log[start] == two[start]);
        assert(log[start + 1] == two[start + 1]);
    }
    match ports {
        Err(error) => Err(error),
        Ok(observed) => Ok(
            summarize(
                observed,
                controller.reset_ready_root,
                secret,
                Ghost(survey_subject(*controller)),
            ),
        ),
    }
}

proof fn lemma_ports_in_order<E>(
    subject: SurveySubject,
    observed: Seq<XhciPortObservation>,
    log: Seq<PortRead<E>>,
    at: int,
)
    requires
        observed.len() <= subject.maximum_ports,
        forall|i: int| 0 <= i < observed.len() ==> (#[trigger] observed[i]).port_id == i + 1,
    ensures
        ports_run(subject, observed, log, at) matches Some((Ok(all), _)) ==> all.len()
            == subject.maximum_ports && forall|i: int|
            0 <= i < all.len() ==> (#[trigger] all[i]).port_id == i + 1,
    decreases subject.maximum_ports - observed.len(),
{
    if observed.len() < subject.maximum_ports {
        let port_id = (observed.len() + 1) as u8;
        match port_read_at(log, at, portsc_offset(subject.operational_offset, port_id)) {
            Some(Ok(portsc)) => {
                lemma_ports_in_order(
                    subject,
                    observed.push(
                        observe_port(
                            port_id,
                            protocol_of_port(subject.protocols, port_id, 0),
                            portsc,
                        ),
                    ),
                    log,
                    at + 1,
                );
            },
            _ => {},
        }
    }
}

/// A survey observes every port of the controller once, in order.
pub proof fn law_a_survey_observes_every_port<E>(
    subject: SurveySubject,
    secret: u64,
    log: Seq<PortRead<E>>,
    at: int,
    observed: Seq<XhciPortObservation>,
    end: int,
)
    requires
        survey_run(subject, secret, log, at) == Some(
            (Ok::<Seq<XhciPortObservation>, XhciPortSurveyError<E>>(observed), end),
        ),
    ensures
        observed.len() == subject.maximum_ports,
        forall|i: int| 0 <= i < observed.len() ==> (#[trigger] observed[i]).port_id == i + 1,
{
    lemma_ports_in_order(subject, Seq::empty(), log, at + 2);
}

} // verus!
