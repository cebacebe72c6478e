//! The brokers of the strategies.

use super::dispatch::{
    ActivationReceipt, BackendFault, DispatchStage, FaultCode, HealthReceipt, ProbeObservation,
};
use super::fingerprint::{FirmwareFramebufferEvidence, GpuFingerprint};
use super::model::{DriverStrategy, OracleDecision};
use super::parties::{PlatformEvent, StrategyBroker};
use super::platform::{at_least_one, BrokerTransaction, IsolationReceipt};
use super::registry::{
    ProbeSemantic, ProbeStep, ShimDescriptor, PROBE_EVIDENCE_FIRMWARE_LEASE, PROBE_EVIDENCE_HEALTH,
};
use crate::seal::mix;
use vstd::prelude::*;

verus! {

/// Whoever hosts the native drivers. Each call adds one entry to its history.
pub trait NativeStrategyHost {
    /// All that was asked through this host, and answered.
    open spec fn history(&self) -> Seq<PlatformEvent> {
        arbitrary()
    }

    fn begin(
        &mut self,
        strategy: DriverStrategy,
        fingerprint: &GpuFingerprint,
        descriptor: &ShimDescriptor,
        isolation: IsolationReceipt,
    ) -> (reply: Result<BrokerTransaction, BackendFault>)
        ensures
            final(self).history() == old(self).history().push(
                PlatformEvent::Begin {
                    strategy,
                    fingerprint: *fingerprint,
                    descriptor: *descriptor,
                    isolation,
                    reply,
                },
            ),
    ;

    fn probe(
        &mut self,
        strategy: DriverStrategy,
        transaction: BrokerTransaction,
        fingerprint: &GpuFingerprint,
        descriptor: &ShimDescriptor,
        step: ProbeStep,
        attempt: u8,
    ) -> (reply: (BrokerTransaction, Result<ProbeObservation, BackendFault>))
        ensures
            final(self).history() == old(self).history().push(
                PlatformEvent::Probe {
                    strategy,
                    transaction,
                    fingerprint: *fingerprint,
                    descriptor: *descriptor,
                    step,
                    attempt,
                    reply,
                },
            ),
    ;

    fn activate(
        &mut self,
        strategy: DriverStrategy,
        transaction: BrokerTransaction,
        fingerprint: &GpuFingerprint,
        descriptor: &ShimDescriptor,
        isolation: IsolationReceipt,
    ) -> (reply: (BrokerTransaction, Result<ActivationReceipt, BackendFault>))
        ensures
            final(self).history() == old(self).history().push(
                PlatformEvent::Activate {
                    strategy,
                    transaction,
                    fingerprint: *fingerprint,
                    descriptor: *descriptor,
                    isolation,
                    reply,
                },
            ),
    ;

    fn health(
        &mut self,
        strategy: DriverStrategy,
        transaction: BrokerTransaction,
        activation: &ActivationReceipt,
        descriptor: &ShimDescriptor,
    ) -> (reply: (BrokerTransaction, Result<HealthReceipt, BackendFault>))
        ensures
            final(self).history() == old(self).history().push(
                PlatformEvent::Health {
                    strategy,
                    transaction,
                    activation: *activation,
                    descriptor: *descriptor,
                    reply,
                },
            ),
    ;

    fn commit(
        &mut self,
        strategy: DriverStrategy,
        transaction: BrokerTransaction,
        activation: &ActivationReceipt,
        health: &HealthReceipt,
        decision: &OracleDecision,
    ) -> (reply: (BrokerTransaction, Result<(u64, u32), BackendFault>))
        ensures
            final(self).history() == old(self).history().push(
                PlatformEvent::Commit {
                    strategy,
                    transaction,
                    activation: *activation,
                    health: *health,
                    decision: *decision,
                    reply,
                },
            ),
    ;

    fn rollback(
        &mut self,
        strategy: DriverStrategy,
        transaction: BrokerTransaction,
        stage: DispatchStage,
        fault: BackendFault,
    ) -> (reply: (BrokerTransaction, Result<(), BackendFault>))
        ensures
            final(self).history() == old(self).history().push(
                PlatformEvent::Rollback {
                    strategy,
                    transaction,
                    stage,
                    fault,
                    reply,
                },
            ),
    ;
}

/// A host that is lent.
impl<H: NativeStrategyHost> NativeStrategyHost for &mut H {
    open spec fn history(&self) -> Seq<PlatformEvent> {
        (**self).history()
    }

    fn begin(
        &mut self,
        strategy: DriverStrategy,
        fingerprint: &GpuFingerprint,
        descriptor: &ShimDescriptor,
        isolation: IsolationReceipt,
    ) -> (reply: Result<BrokerTransaction, BackendFault>) {
        (**self).begin(strategy, fingerprint, descriptor, isolation)
    }

    fn probe(
        &mut self,
        strategy: DriverStrategy,
        transaction: BrokerTransaction,
        fingerprint: &GpuFingerprint,
        descriptor: &ShimDescriptor,
        step: ProbeStep,
        attempt: u8,
    ) -> (reply: (BrokerTransaction, Result<ProbeObservation, BackendFault>)) {
        (**self).probe(strategy, transaction, fingerprint, descriptor, step, attempt)
    }

    fn activate(
        &mut self,
        strategy: DriverStrategy,
        transaction: BrokerTransaction,
        fingerprint: &GpuFingerprint,
        descriptor: &ShimDescriptor,
        isolation: IsolationReceipt,
    ) -> (reply: (BrokerTransaction, Result<ActivationReceipt, BackendFault>)) {
        (**self).activate(strategy, transaction, fingerprint, descriptor, isolation)
    }

    fn health(
        &mut self,
        strategy: DriverStrategy,
        transaction: BrokerTransaction,
        activation: &ActivationReceipt,
        descriptor: &ShimDescriptor,
    ) -> (reply: (BrokerTransaction, Result<HealthReceipt, BackendFault>)) {
        (**self).health(strategy, transaction, activation, descriptor)
    }

    fn commit(
        &mut self,
        strategy: DriverStrategy,
        transaction: BrokerTransaction,
        activation: &ActivationReceipt,
        health: &HealthReceipt,
        decision: &OracleDecision,
    ) -> (reply: (BrokerTransaction, Result<(u64, u32), BackendFault>)) {
        (**self).commit(strategy, transaction, activation, health, decision)
    }

    fn rollback(
        &mut self,
        strategy: DriverStrategy,
        transaction: BrokerTransaction,
        stage: DispatchStage,
        fault: BackendFault,
    ) -> (reply: (BrokerTransaction, Result<(), BackendFault>)) {
        (**self).rollback(strategy, transaction, stage, fault)
    }
}

/// A native strategy, answered by its host: what the broker is asked, the host is asked.
pub struct NativeBrokerAdapter<H: NativeStrategyHost> {
    pub strategy: DriverStrategy,
    pub host: H,
}

impl<H: NativeStrategyHost> NativeBrokerAdapter<H> {
    pub fn new(strategy: DriverStrategy, host: H) -> (result: Result<Self, BackendFault>)
        ensures
            match result {
                Ok(adapter) => strategy.native() && adapter.strategy == strategy && adapter.host
                    == host,
                Err(fault) => !strategy.native() && fault == BackendFault::new(
                    FaultCode::RegistryFault,
                    false,
                    strategy.index() as u64,
                ),
            },
    {
        if !strategy.native() {
            return Err(
                BackendFault::new(FaultCode::RegistryFault, false, strategy.index() as u64),
            );
        }
        Ok(NativeBrokerAdapter { strategy, host })
    }
}

impl<H: NativeStrategyHost> StrategyBroker for NativeBrokerAdapter<H> {
    open spec fn serves(&self) -> DriverStrategy {
        self.strategy
    }

    open spec fn history(&self) -> Seq<PlatformEvent> {
        self.host.history()
    }

    fn strategy(&self) -> (strategy: DriverStrategy) {
        self.strategy
    }

    fn begin(
        &mut self,
        fingerprint: &GpuFingerprint,
        descriptor: &ShimDescriptor,
        isolation: IsolationReceipt,
    ) -> (reply: Result<BrokerTransaction, BackendFault>) {
        self.host.begin(self.strategy, fingerprint, descriptor, isolation)
    }

    fn probe(
        &mut self,
        transaction: BrokerTransaction,
        fingerprint: &GpuFingerprint,
        descriptor: &ShimDescriptor,
        step: ProbeStep,
        attempt: u8,
    ) -> (reply: (BrokerTransaction, Result<ProbeObservation, BackendFault>)) {
        self.host.probe(self.strategy, transaction, fingerprint, descriptor, step, attempt)
    }

    fn activate(
        &mut self,
        transaction: BrokerTransaction,
        fingerprint: &GpuFingerprint,
        descriptor: &ShimDescriptor,
        isolation: IsolationReceipt,
    ) -> (reply: (BrokerTransaction, Result<ActivationReceipt, BackendFault>)) {
        self.host.activate(self.strategy, transaction, fingerprint, descriptor, isolation)
    }

    fn health(
        &mut self,
        transaction: BrokerTransaction,
        activation: &ActivationReceipt,
        descriptor: &ShimDescriptor,
    ) -> (reply: (BrokerTransaction, Result<HealthReceipt, BackendFault>)) {
        self.host.health(self.strategy, transaction, activation, descriptor)
    }

    fn commit(
        &mut self,
        transaction: BrokerTransaction,
        activation: &ActivationReceipt,
        health: &HealthReceipt,
        decision: &OracleDecision,
    ) -> (reply: (BrokerTransaction, Result<(u64, u32), BackendFault>)) {
        self.host.commit(self.strategy, transaction, activation, health, decision)
    }

    fn rollback(
        &mut self,
        transaction: BrokerTransaction,
        stage: DispatchStage,
        fault: BackendFault,
    ) -> (reply: (BrokerTransaction, Result<(), BackendFault>)) {
        self.host.rollback(self.strategy, transaction, stage, fault)
    }
}

/// One exchange with the keeper of firmware's framebuffers.
pub enum FramebufferCall {
    Tick(u64),
    Inspect { evidence: FirmwareFramebufferEvidence, reply: Result<(u64, u64), BackendFault> },
    Retain { object: u64, reply: Result<(u64, u32), BackendFault> },
    Release { object: u64, reply: Result<(), BackendFault> },
}

/// Whoever keeps the framebuffers that firmware left. Each call adds one entry to its
/// history.
pub trait FirmwareFramebufferHost {
    /// All that was asked and answered.
    open spec fn history(&self) -> Seq<FramebufferCall> {
        arbitrary()
    }

    fn now_tick(&mut self) -> (tick: u64)
        ensures
            final(self).history() == old(self).history().push(FramebufferCall::Tick(tick)),
    ;

    fn inspect(&mut self, evidence: FirmwareFramebufferEvidence) -> (reply: Result<
        (u64, u64),
        BackendFault,
    >)
        ensures
            final(self).history() == old(self).history().push(
                FramebufferCall::Inspect { evidence, reply },
            ),
    ;

    fn retain(&mut self, object: u64) -> (reply: Result<(u64, u32), BackendFault>)
        ensures
            final(self).history() == old(self).history().push(
                FramebufferCall::Retain { object, reply },
            ),
    ;

    fn release(&mut self, object: u64) -> (reply: Result<(), BackendFault>)
        ensures
            final(self).history() == old(self).history().push(
                FramebufferCall::Release { object, reply },
            ),
    ;
}

/// A keeper that is lent.
impl<H: FirmwareFramebufferHost> FirmwareFramebufferHost for &mut H {
    open spec fn history(&self) -> Seq<FramebufferCall> {
        (**self).history()
    }

    fn now_tick(&mut self) -> (tick: u64) {
        (**self).now_tick()
    }

    fn inspect(&mut self, evidence: FirmwareFramebufferEvidence) -> (reply: Result<
        (u64, u64),
        BackendFault,
    >) {
        (**self).inspect(evidence)
    }

    fn retain(&mut self, object: u64) -> (reply: Result<(u64, u32), BackendFault>) {
        (**self).retain(object)
    }

    fn release(&mut self, object: u64) -> (reply: Result<(), BackendFault>) {
        (**self).release(object)
    }
}

/// The transaction that an inspected framebuffer opens.
#[verifier::allow_in_spec]
pub fn inspected_transaction(
    fingerprint: &GpuFingerprint,
    reply: Result<(u64, u64), BackendFault>,
) -> Result<BrokerTransaction, BackendFault>
    returns
        (match reply {
            Err(fault) => Err(fault),
            Ok((object, root)) => if object == 0 || root == 0 {
                Err(BackendFault::new(FaultCode::TransactionRejected, false, object))
            } else {
                Ok::<BrokerTransaction, BackendFault>(
                    BrokerTransaction {
                        token: object,
                        state: [
                            object,
                            fingerprint.firmware_framebuffer.byte_length,
                            fingerprint.firmware_framebuffer.width as u64,
                            fingerprint.firmware_framebuffer.height as u64,
                            0u64,
                            0u64,
                            0u64,
                            0u64,
                        ],
                        root,
                    },
                )
            },
        }),
{
    match reply {
        Err(fault) => Err(fault),
        Ok((object, root)) => if object == 0 || root == 0 {
            Err(BackendFault::new(FaultCode::TransactionRejected, false, object))
        } else {
            Ok(
                BrokerTransaction {
                    token: object,
                    state: [
                        object,
                        fingerprint.firmware_framebuffer.byte_length,
                        fingerprint.firmware_framebuffer.width as u64,
                        fingerprint.firmware_framebuffer.height as u64,
                        0u64,
                        0u64,
                        0u64,
                        0u64,
                    ],
                    root,
                },
            )
        },
    }
}

/// The evidence that a framebuffer can give for a step.
#[verifier::allow_in_spec]
pub fn firmware_evidence(semantic: ProbeSemantic) -> Option<u32>
    returns
        (match semantic {
            ProbeSemantic::VerifyFirmwareLease => Some(PROBE_EVIDENCE_FIRMWARE_LEASE),
            ProbeSemantic::EstablishHealthBaseline => Some(PROBE_EVIDENCE_HEALTH),
            _ => None::<u32>,
        }),
{
    match semantic {
        ProbeSemantic::VerifyFirmwareLease => Some(PROBE_EVIDENCE_FIRMWARE_LEASE),
        ProbeSemantic::EstablishHealthBaseline => Some(PROBE_EVIDENCE_HEALTH),
        _ => None,
    }
}

/// What probing a framebuffer at a tick observes.
pub open spec fn firmware_observation(
    transaction: BrokerTransaction,
    fingerprint: GpuFingerprint,
    semantic: ProbeSemantic,
    evidence_bit: u32,
    tick: u64,
) -> (BrokerTransaction, Result<ProbeObservation, BackendFault>) {
    let root = crate::seal::mix_of(
        transaction.root,
        fingerprint.evidence_root ^ (evidence_bit as u64) ^ tick,
    );
    (
        BrokerTransaction { root, ..transaction },
        Ok(ProbeObservation { semantic, evidence_bit, value: transaction.token, tick, root }),
    )
}

/// The tick that a keeper gave last.
pub open spec fn last_tick(history: Seq<FramebufferCall>) -> u64 {
    history.last()->Tick_0
}

/// Whether a keeper was asked for a tick, and for nothing else.
pub open spec fn ticks(
    before: Seq<FramebufferCall>,
    after: Seq<FramebufferCall>,
    tick: u64,
) -> bool {
    after == before.push(FramebufferCall::Tick(tick))
}

/// The strategy that keeps the framebuffer of firmware.
pub struct FirmwareFramebufferBroker<H: FirmwareFramebufferHost> {
    pub host: H,
    pub asked: Ghost<Seq<PlatformEvent>>,
}

impl<H: FirmwareFramebufferHost> FirmwareFramebufferBroker<H> {
    pub fn new(host: H) -> (broker: Self)
        ensures
            broker.host == host,
            broker.asked@ == Seq::<PlatformEvent>::empty(),
    {
        FirmwareFramebufferBroker { host, asked: Ghost(Seq::empty()) }
    }

    /// Whether an exchange takes the broker from one state to the other: what its keeper
    /// is asked for it, and what follows from each answer.
    pub open spec fn acts(self, after: Self, event: PlatformEvent) -> bool {
        match event {
            PlatformEvent::Begin { fingerprint, reply, .. } => {
                if !fingerprint.firmware_display_usable() {
                    &&& after.host == self.host
                    &&& reply == Err::<BrokerTransaction, _>(
                        BackendFault::new(
                            FaultCode::TransactionRejected,
                            false,
                            fingerprint.evidence_root,
                        ),
                    )
                } else {
                    exists|inspected: Result<(u64, u64), BackendFault>|
                        after.host.history() == #[trigger] self.host.history().push(
                            FramebufferCall::Inspect {
                                evidence: fingerprint.firmware_framebuffer,
                                reply: inspected,
                            },
                        ) && reply == inspected_transaction(&fingerprint, inspected)
                }
            },
            PlatformEvent::Probe { transaction, fingerprint, step, reply, .. } => {
                match firmware_evidence(step.semantic) {
                    None => {
                        &&& after.host == self.host
                        &&& reply == (
                            transaction,
                            Err::<ProbeObservation, _>(
                                BackendFault::new(
                                    FaultCode::ProbeFault,
                                    false,
                                    step.semantic.code() as u64,
                                ),
                            ),
                        )
                    },
                    Some(evidence_bit) => {
                        let tick = last_tick(after.host.history());
                        &&& ticks(self.host.history(), after.host.history(), tick)
                        &&& reply == firmware_observation(
                            transaction,
                            fingerprint,
                            step.semantic,
                            evidence_bit,
                            tick,
                        )
                    },
                }
            },
            PlatformEvent::Activate { transaction, fingerprint, reply, .. } => {
                let tick = last_tick(after.host.history());
                ticks(self.host.history(), after.host.history(), tick) && reply == (
                    transaction,
                    Ok::<ActivationReceipt, BackendFault>(
                        ActivationReceipt {
                            token: transaction.token,
                            strategy: DriverStrategy::FirmwareFramebuffer,
                            activation_epoch: at_least_one(tick),
                            transport_root: crate::seal::mix_of(
                                transaction.root,
                                fingerprint.evidence_root,
                            ),
                            framebuffer_object: transaction.token,
                            backend_state: transaction.state,
                        },
                    ),
                )
            },
            PlatformEvent::Health { transaction, activation, reply, .. } => {
                let tick = last_tick(after.host.history());
                ticks(self.host.history(), after.host.history(), tick) && reply == (
                    transaction,
                    Ok::<HealthReceipt, BackendFault>(
                        HealthReceipt {
                            healthy: activation.framebuffer_object != 0,
                            tick,
                            heartbeat: activation.activation_epoch,
                            fault_mask: 0,
                            root: crate::seal::mix_of(transaction.root, tick),
                        },
                    ),
                )
            },
            PlatformEvent::Commit { transaction, activation, reply, .. } => {
                exists|retained: Result<(u64, u32), BackendFault>|
                    after.host.history() == #[trigger] self.host.history().push(
                        FramebufferCall::Retain {
                            object: activation.framebuffer_object,
                            reply: retained,
                        },
                    ) && reply == (
                        transaction,
                        retained_object(activation.framebuffer_object, retained),
                    )
            },
            PlatformEvent::Rollback { transaction, reply, .. } => {
                &&& reply.0 == transaction
                &&& after.host.history() == self.host.history().push(
                    FramebufferCall::Release { object: transaction.token, reply: reply.1 },
                )
            },
            _ => false,
        }
    }
}

impl<H: FirmwareFramebufferHost> StrategyBroker for FirmwareFramebufferBroker<H> {
    open spec fn serves(&self) -> DriverStrategy {
        DriverStrategy::FirmwareFramebuffer
    }

    open spec fn history(&self) -> Seq<PlatformEvent> {
        self.asked@
    }

    fn strategy(&self) -> (strategy: DriverStrategy) {
        DriverStrategy::FirmwareFramebuffer
    }

    fn begin(
        &mut self,
        fingerprint: &GpuFingerprint,
        descriptor: &ShimDescriptor,
        isolation: IsolationReceipt,
    ) -> (result: Result<BrokerTransaction, BackendFault>)
        ensures
            old(self).acts(
                *final(self),
                PlatformEvent::Begin {
                    strategy: DriverStrategy::FirmwareFramebuffer,
                    fingerprint: *fingerprint,
                    descriptor: *descriptor,
                    isolation,
                    reply: result,
                },
            ),
    {
        let result = if !fingerprint.firmware_display_usable() {
            Err(
                BackendFault::new(
                    FaultCode::TransactionRejected,
                    false,
                    fingerprint.evidence_root,
                ),
            )
        } else {
            let inspected = self.host.inspect(fingerprint.firmware_framebuffer);
            inspected_transaction(fingerprint, inspected)
        };
        proof {
            let entry = PlatformEvent::Begin {
                strategy: DriverStrategy::FirmwareFramebuffer,
                fingerprint: *fingerprint,
                descriptor: *descriptor,
                isolation,
                reply: result,
            };
            self.asked@ = self.asked@.push(entry);
        }
        result
    }

    fn probe(
        &mut self,
        transaction: BrokerTransaction,
        fingerprint: &GpuFingerprint,
        descriptor: &ShimDescriptor,
        step: ProbeStep,
        attempt: u8,
    ) -> (result: (BrokerTransaction, Result<ProbeObservation, BackendFault>))
        ensures
            old(self).acts(
                *final(self),
                PlatformEvent::Probe {
                    strategy: DriverStrategy::FirmwareFramebuffer,
                    transaction,
                    fingerprint: *fingerprint,
                    descriptor: *descriptor,
                    step,
                    attempt,
                    reply: result,
                },
            ),
    {
        let result = match firmware_evidence(step.semantic) {
            None => (
                transaction,
                Err(
                    BackendFault::new(FaultCode::ProbeFault, false, step.semantic.code() as u64),
                ),
            ),
            Some(evidence_bit) => {
                let tick: u64 = self.host.now_tick();
                let root: u64 = mix(
                    transaction.root,
                    fingerprint.evidence_root ^ (evidence_bit as u64) ^ tick,
                );
                (
                    BrokerTransaction { root, ..transaction },
                    Ok(
                        ProbeObservation {
                            semantic: step.semantic,
                            evidence_bit,
                            value: transaction.token,
                            tick,
                            root,
                        },
                    ),
                )
            },
        };
        proof {
            let entry = PlatformEvent::Probe {
                strategy: DriverStrategy::FirmwareFramebuffer,
                transaction,
                fingerprint: *fingerprint,
                descriptor: *descriptor,
                step,
                attempt,
                reply: result,
            };
            self.asked@ = self.asked@.push(entry);
        }
        result
    }

    fn activate(
        &mut self,
        transaction: BrokerTransaction,
        fingerprint: &GpuFingerprint,
        descriptor: &ShimDescriptor,
        isolation: IsolationReceipt,
    ) -> (result: (BrokerTransaction, Result<ActivationReceipt, BackendFault>))
        ensures
            old(self).acts(
                *final(self),
                PlatformEvent::Activate {
                    strategy: DriverStrategy::FirmwareFramebuffer,
                    transaction,
                    fingerprint: *fingerprint,
                    descriptor: *descriptor,
                    isolation,
                    reply: result,
                },
            ),
    {
        let tick: u64 = self.host.now_tick();
        let result = (
            transaction,
            Ok(
                ActivationReceipt {
                    token: transaction.token,
                    strategy: DriverStrategy::FirmwareFramebuffer,
                    activation_epoch: at_least_one(tick),
                    transport_root: mix(transaction.root, fingerprint.evidence_root),
                    framebuffer_object: transaction.token,
                    backend_state: transaction.state,
                },
            ),
        );
        proof {
            let entry = PlatformEvent::Activate {
                strategy: DriverStrategy::FirmwareFramebuffer,
                transaction,
                fingerprint: *fingerprint,
                descriptor: *descriptor,
                isolation,
                reply: result,
            };
            self.asked@ = self.asked@.push(entry);
        }
        result
    }

    fn health(
        &mut self,
        transaction: BrokerTransaction,
        activation: &ActivationReceipt,
        descriptor: &ShimDescriptor,
    ) -> (result: (BrokerTransaction, Result<HealthReceipt, BackendFault>))
        ensures
            old(self).acts(
                *final(self),
                PlatformEvent::Health {
                    strategy: DriverStrategy::FirmwareFramebuffer,
                    transaction,
                    activation: *activation,
                    descriptor: *descriptor,
                    reply: result,
                },
            ),
    {
        let tick: u64 = self.host.now_tick();
        let result = (
            transaction,
            Ok(
                HealthReceipt {
                    healthy: activation.framebuffer_object != 0,
                    tick,
                    heartbeat: activation.activation_epoch,
                    fault_mask: 0,
                    root: mix(transaction.root, tick),
                },
            ),
        );
        proof {
            let entry = PlatformEvent::Health {
                strategy: DriverStrategy::FirmwareFramebuffer,
                transaction,
                activation: *activation,
                descriptor: *descriptor,
                reply: result,
            };
            self.asked@ = self.asked@.push(entry);
        }
        result
    }

    fn commit(
        &mut self,
        transaction: BrokerTransaction,
        activation: &ActivationReceipt,
        health: &HealthReceipt,
        decision: &OracleDecision,
    ) -> (result: (BrokerTransaction, Result<(u64, u32), BackendFault>))
        ensures
            old(self).acts(
                *final(self),
                PlatformEvent::Commit {
                    strategy: DriverStrategy::FirmwareFramebuffer,
                    transaction,
                    activation: *activation,
                    health: *health,
                    decision: *decision,
                    reply: result,
                },
            ),
    {
        let reply = self.host.retain(activation.framebuffer_object);
        let result = (transaction, retained_object(activation.framebuffer_object, reply));
        proof {
            let entry = PlatformEvent::Commit {
                strategy: DriverStrategy::FirmwareFramebuffer,
                transaction,
                activation: *activation,
                health: *health,
                decision: *decision,
                reply: result,
            };
            self.asked@ = self.asked@.push(entry);
        }
        result
    }

    fn rollback(
        &mut self,
        transaction: BrokerTransaction,
        stage: DispatchStage,
        fault: BackendFault,
    ) -> (result: (BrokerTransaction, Result<(), BackendFault>))
        ensures
            old(self).acts(
                *final(self),
                PlatformEvent::Rollback {
                    strategy: DriverStrategy::FirmwareFramebuffer,
                    transaction,
                    stage,
                    fault,
                    reply: result,
                },
            ),
    {
        let reply = self.host.release(transaction.token);
        let result = (transaction, reply);
        proof {
            let entry = PlatformEvent::Rollback {
                strategy: DriverStrategy::FirmwareFramebuffer,
                transaction,
                stage,
                fault,
                reply: result,
            };
            self.asked@ = self.asked@.push(entry);
        }
        result
    }
}

/// A retention stands only for the object that was asked for.
#[verifier::allow_in_spec]
pub fn retained_object(object: u64, reply: Result<(u64, u32), BackendFault>) -> Result<
    (u64, u32),
    BackendFault,
>
    returns
        (match reply {
            Err(fault) => Err(fault),
            Ok(retained) => if retained.0 != object {
                Err(BackendFault::new(FaultCode::CommitFault, false, retained.0))
            } else {
                Ok::<(u64, u32), BackendFault>(retained)
            },
        }),
{
    match reply {
        Err(fault) => Err(fault),
        Ok(retained) => if retained.0 != object {
            Err(BackendFault::new(FaultCode::CommitFault, false, retained.0))
        } else {
            Ok(retained)
        },
    }
}

/// The strategy that drives nothing and always succeeds.
pub struct QuarantineBroker {
    pub secret: u64,
    pub asked: Ghost<Seq<PlatformEvent>>,
}

impl QuarantineBroker {
    pub fn new(secret: u64) -> (result: Result<Self, BackendFault>)
        ensures
            match result {
                Ok(broker) => secret != 0 && broker.secret == secret && broker.asked@ == Seq::<
                    PlatformEvent,
                >::empty(),
                Err(fault) => secret == 0 && fault == BackendFault::new(
                    FaultCode::RegistryFault,
                    false,
                    0,
                ),
            },
    {
        if secret == 0 {
            return Err(BackendFault::new(FaultCode::RegistryFault, false, 0));
        }
        Ok(QuarantineBroker { secret, asked: Ghost(Seq::empty()) })
    }

    /// What the broker answers.
    pub open spec fn acts(self, after: Self, event: PlatformEvent) -> bool {
        &&& after.secret == self.secret
        &&& match event {
            PlatformEvent::Begin { fingerprint, reply, .. } => {
                let token = at_least_one(
                    crate::seal::mix_of(self.secret, fingerprint.evidence_root),
                );
                reply == Ok::<BrokerTransaction, BackendFault>(
                    BrokerTransaction {
                        token,
                        state: [
                            fingerprint.evidence_root,
                            0u64,
                            0u64,
                            0u64,
                            0u64,
                            0u64,
                            0u64,
                            0u64,
                        ],
                        root: crate::seal::mix_of(token, 1),
                    },
                )
            },
            PlatformEvent::Probe { transaction, step, reply, .. } => {
                let root = crate::seal::mix_of(transaction.root, PROBE_EVIDENCE_HEALTH as u64);
                if step.semantic != ProbeSemantic::EstablishHealthBaseline {
                    reply == (
                        transaction,
                        Err::<ProbeObservation, _>(
                            BackendFault::new(
                                FaultCode::ProbeFault,
                                false,
                                step.semantic.code() as u64,
                            ),
                        ),
                    )
                } else {
                    reply == (
                        BrokerTransaction { root, ..transaction },
                        Ok::<ProbeObservation, BackendFault>(
                            ProbeObservation {
                                semantic: step.semantic,
                                evidence_bit: PROBE_EVIDENCE_HEALTH,
                                value: transaction.token,
                                tick: 1,
                                root,
                            },
                        ),
                    )
                }
            },
            PlatformEvent::Activate { transaction, reply, .. } => reply == (
                transaction,
                Ok::<ActivationReceipt, BackendFault>(
                    ActivationReceipt {
                        token: transaction.token,
                        strategy: DriverStrategy::Quarantine,
                        activation_epoch: 1,
                        transport_root: crate::seal::mix_of(transaction.root, 2),
                        framebuffer_object: 0,
                        backend_state: transaction.state,
                    },
                ),
            ),
            PlatformEvent::Health { transaction, reply, .. } => reply == (
                transaction,
                Ok::<HealthReceipt, BackendFault>(
                    HealthReceipt {
                        healthy: true,
                        tick: 1,
                        heartbeat: 1,
                        fault_mask: 0,
                        root: crate::seal::mix_of(transaction.root, 3),
                    },
                ),
            ),
            PlatformEvent::Commit { transaction, reply, .. } => reply == (
                transaction,
                Ok::<(u64, u32), BackendFault>(
                    (at_least_one(crate::seal::mix_of(transaction.token, 4)), 1),
                ),
            ),
            PlatformEvent::Rollback { transaction, reply, .. } => reply == (
                transaction,
                Ok::<(), BackendFault>(()),
            ),
            _ => false,
        }
    }
}

impl StrategyBroker for QuarantineBroker {
    open spec fn serves(&self) -> DriverStrategy {
        DriverStrategy::Quarantine
    }

    open spec fn history(&self) -> Seq<PlatformEvent> {
        self.asked@
    }

    fn strategy(&self) -> (strategy: DriverStrategy) {
        DriverStrategy::Quarantine
    }

    fn begin(
        &mut self,
        fingerprint: &GpuFingerprint,
        descriptor: &ShimDescriptor,
        isolation: IsolationReceipt,
    ) -> (result: Result<BrokerTransaction, BackendFault>)
        ensures
            old(self).acts(
                *final(self),
                PlatformEvent::Begin {
                    strategy: DriverStrategy::Quarantine,
                    fingerprint: *fingerprint,
                    descriptor: *descriptor,
                    isolation,
                    reply: result,
                },
            ),
    {
        let token: u64 = at_least_one(mix(self.secret, fingerprint.evidence_root));
        let result = Ok(
            BrokerTransaction {
                token,
                state: [fingerprint.evidence_root, 0u64, 0u64, 0u64, 0u64, 0u64, 0u64, 0u64],
                root: mix(token, 1),
            },
        );
        proof {
            let entry = PlatformEvent::Begin {
                strategy: DriverStrategy::Quarantine,
                fingerprint: *fingerprint,
                descriptor: *descriptor,
                isolation,
                reply: result,
            };
            self.asked@ = self.asked@.push(entry);
        }
        result
    }

    fn probe(
        &mut self,
        transaction: BrokerTransaction,
        fingerprint: &GpuFingerprint,
        descriptor: &ShimDescriptor,
        step: ProbeStep,
        attempt: u8,
    ) -> (result: (BrokerTransaction, Result<ProbeObservation, BackendFault>))
        ensures
            old(self).acts(
                *final(self),
                PlatformEvent::Probe {
                    strategy: DriverStrategy::Quarantine,
                    transaction,
                    fingerprint: *fingerprint,
                    descriptor: *descriptor,
                    step,
                    attempt,
                    reply: result,
                },
            ),
    {
        let result = if step.semantic != ProbeSemantic::EstablishHealthBaseline {
            (
                transaction,
                Err(
                    BackendFault::new(FaultCode::ProbeFault, false, step.semantic.code() as u64),
                ),
            )
        } else {
            let root: u64 = mix(transaction.root, PROBE_EVIDENCE_HEALTH as u64);
            (
                BrokerTransaction { root, ..transaction },
                Ok(
                    ProbeObservation {
                        semantic: step.semantic,
                        evidence_bit: PROBE_EVIDENCE_HEALTH,
                        value: transaction.token,
                        tick: 1,
                        root,
                    },
                ),
            )
        };
        proof {
            let entry = PlatformEvent::Probe {
                strategy: DriverStrategy::Quarantine,
                transaction,
                fingerprint: *fingerprint,
                descriptor: *descriptor,
                step,
                attempt,
                reply: result,
            };
            self.asked@ = self.asked@.push(entry);
        }
        result
    }

    fn activate(
        &mut self,
        transaction: BrokerTransaction,
        fingerprint: &GpuFingerprint,
        descriptor: &ShimDescriptor,
        isolation: IsolationReceipt,
    ) -> (result: (BrokerTransaction, Result<ActivationReceipt, BackendFault>))
        ensures
            old(self).acts(
                *final(self),
                PlatformEvent::Activate {
                    strategy: DriverStrategy::Quarantine,
                    transaction,
                    fingerprint: *fingerprint,
                    descriptor: *descriptor,
                    isolation,
                    reply: result,
                },
            ),
    {
        let result = (
            transaction,
            Ok(
                ActivationReceipt {
                    token: transaction.token,
                    strategy: DriverStrategy::Quarantine,
                    activation_epoch: 1,
                    transport_root: mix(transaction.root, 2),
                    framebuffer_object: 0,
                    backend_state: transaction.state,
                },
            ),
        );
        proof {
            let entry = PlatformEvent::Activate {
                strategy: DriverStrategy::Quarantine,
                transaction,
                fingerprint: *fingerprint,
                descriptor: *descriptor,
                isolation,
                reply: result,
            };
            self.asked@ = self.asked@.push(entry);
        }
        result
    }

    fn health(
        &mut self,
        transaction: BrokerTransaction,
        activation: &ActivationReceipt,
        descriptor: &ShimDescriptor,
    ) -> (result: (BrokerTransaction, Result<HealthReceipt, BackendFault>))
        ensures
            old(self).acts(
                *final(self),
                PlatformEvent::Health {
                    strategy: DriverStrategy::Quarantine,
                    transaction,
                    activation: *activation,
                    descriptor: *descriptor,
                    reply: result,
                },
            ),
    {
        let result = (
            transaction,
            Ok(
                HealthReceipt {
                    healthy: true,
                    tick: 1,
                    heartbeat: 1,
                    fault_mask: 0,
                    root: mix(transaction.root, 3),
                },
            ),
        );
        proof {
            let entry = PlatformEvent::Health {
                strategy: DriverStrategy::Quarantine,
                transaction,
                activation: *activation,
                descriptor: *descriptor,
                reply: result,
            };
            self.asked@ = self.asked@.push(entry);
        }
        result
    }

    fn commit(
        &mut self,
        transaction: BrokerTransaction,
        activation: &ActivationReceipt,
        health: &HealthReceipt,
        decision: &OracleDecision,
    ) -> (result: (BrokerTransaction, Result<(u64, u32), BackendFault>))
        ensures
            old(self).acts(
                *final(self),
                PlatformEvent::Commit {
                    strategy: DriverStrategy::Quarantine,
                    transaction,
                    activation: *activation,
                    health: *health,
                    decision: *decision,
                    reply: result,
                },
            ),
    {
        let result = (transaction, Ok((at_least_one(mix(transaction.token, 4)), 1)));
        proof {
            let entry = PlatformEvent::Commit {
                strategy: DriverStrategy::Quarantine,
                transaction,
                activation: *activation,
                health: *health,
                decision: *decision,
                reply: result,
            };
            self.asked@ = self.asked@.push(entry);
        }
        result
    }

    fn rollback(
        &mut self,
        transaction: BrokerTransaction,
        stage: DispatchStage,
        fault: BackendFault,
    ) -> (result: (BrokerTransaction, Result<(), BackendFault>))
        ensures
            old(self).acts(
                *final(self),
                PlatformEvent::Rollback {
                    strategy: DriverStrategy::Quarantine,
                    transaction,
                    stage,
                    fault,
                    reply: result,
                },
            ),
    {
        let result = (transaction, Ok(()));
        proof {
            let entry = PlatformEvent::Rollback {
                strategy: DriverStrategy::Quarantine,
                transaction,
                stage,
                fault,
                reply: result,
            };
            self.asked@ = self.asked@.push(entry);
        }
        result
    }
}

/// Any broker of the laboratory.
pub enum LabBroker<H: NativeStrategyHost, F: FirmwareFramebufferHost> {
    Native(NativeBrokerAdapter<H>),
    Firmware(FirmwareFramebufferBroker<F>),
    Quarantine(QuarantineBroker),
}

impl<H: NativeStrategyHost, F: FirmwareFramebufferHost> LabBroker<H, F> {
    /// Whether an exchange takes the broker from one state to the other, as the broker
    /// that it is answers it.
    pub open spec fn acts(self, after: Self, event: PlatformEvent) -> bool {
        match (self, after) {
            (LabBroker::Native(broker), LabBroker::Native(then)) => then.strategy
                == broker.strategy,
            (LabBroker::Firmware(broker), LabBroker::Firmware(then)) => broker.acts(then, event),
            (LabBroker::Quarantine(broker), LabBroker::Quarantine(then)) => broker.acts(
                then,
                event,
            ),
            _ => false,
        }
    }
}

impl<H: NativeStrategyHost, F: FirmwareFramebufferHost> StrategyBroker for LabBroker<H, F> {
    open spec fn serves(&self) -> DriverStrategy {
        match self {
            LabBroker::Native(broker) => broker.serves(),
            LabBroker::Firmware(broker) => broker.serves(),
            LabBroker::Quarantine(broker) => broker.serves(),
        }
    }

    open spec fn history(&self) -> Seq<PlatformEvent> {
        match self {
            LabBroker::Native(broker) => broker.history(),
            LabBroker::Firmware(broker) => broker.history(),
            LabBroker::Quarantine(broker) => broker.history(),
        }
    }

    fn strategy(&self) -> (strategy: DriverStrategy) {
        match self {
            LabBroker::Native(broker) => broker.strategy(),
            LabBroker::Firmware(broker) => broker.strategy(),
            LabBroker::Quarantine(broker) => broker.strategy(),
        }
    }

    fn begin(
        &mut self,
        fingerprint: &GpuFingerprint,
        descriptor: &ShimDescriptor,
        isolation: IsolationReceipt,
    ) -> (result: Result<BrokerTransaction, BackendFault>)
        ensures
            old(self).acts(
                *final(self),
                PlatformEvent::Begin {
                    strategy: old(self).serves(),
                    fingerprint: *fingerprint,
                    descriptor: *descriptor,
                    isolation,
                    reply: result,
                },
            ),
    {
        match self {
            LabBroker::Native(broker) => broker.begin(fingerprint, descriptor, isolation),
            LabBroker::Firmware(broker) => broker.begin(fingerprint, descriptor, isolation),
            LabBroker::Quarantine(broker) => broker.begin(fingerprint, descriptor, isolation),
        }
    }

    fn probe(
        &mut self,
        transaction: BrokerTransaction,
        fingerprint: &GpuFingerprint,
        descriptor: &ShimDescriptor,
        step: ProbeStep,
        attempt: u8,
    ) -> (result: (BrokerTransaction, Result<ProbeObservation, BackendFault>))
        ensures
            old(self).acts(
                *final(self),
                PlatformEvent::Probe {
                    strategy: old(self).serves(),
                    transaction,
                    fingerprint: *fingerprint,
                    descriptor: *descriptor,
                    step,
                    attempt,
                    reply: result,
                },
            ),
    {
        match self {
            LabBroker::Native(broker) => broker.probe(
                transaction,
                fingerprint,
                descriptor,
                step,
                attempt,
            ),
            LabBroker::Firmware(broker) => broker.probe(
                transaction,
                fingerprint,
                descriptor,
                step,
                attempt,
            ),
            LabBroker::Quarantine(broker) => broker.probe(
                transaction,
                fingerprint,
                descriptor,
                step,
                attempt,
            ),
        }
    }

    fn activate(
        &mut self,
        transaction: BrokerTransaction,
        fingerprint: &GpuFingerprint,
        descriptor: &ShimDescriptor,
        isolation: IsolationReceipt,
    ) -> (result: (BrokerTransaction, Result<ActivationReceipt, BackendFault>))
        ensures
            old(self).acts(
                *final(self),
                PlatformEvent::Activate {
                    strategy: old(self).serves(),
                    transaction,
                    fingerprint: *fingerprint,
                    descriptor: *descriptor,
                    isolation,
                    reply: result,
                },
            ),
    {
        match self {
            LabBroker::Native(broker) => broker.activate(
                transaction,
                fingerprint,
                descriptor,
                isolation,
            ),
            LabBroker::Firmware(broker) => broker.activate(
                transaction,
                fingerprint,
                descriptor,
                isolation,
            ),
            LabBroker::Quarantine(broker) => broker.activate(
                transaction,
                fingerprint,
                descriptor,
                isolation,
            ),
        }
    }

    fn health(
        &mut self,
        transaction: BrokerTransaction,
        activation: &ActivationReceipt,
        descriptor: &ShimDescriptor,
    ) -> (result: (BrokerTransaction, Result<HealthReceipt, BackendFault>))
        ensures
            old(self).acts(
                *final(self),
                PlatformEvent::Health {
                    strategy: old(self).serves(),
                    transaction,
                    activation: *activation,
                    descriptor: *descriptor,
                    reply: result,
                },
            ),
    {
        match self {
            LabBroker::Native(broker) => broker.health(transaction, activation, descriptor),
            LabBroker::Firmware(broker) => broker.health(transaction, activation, descriptor),
            LabBroker::Quarantine(broker) => broker.health(transaction, activation, descriptor),
        }
    }

    fn commit(
        &mut self,
        transaction: BrokerTransaction,
        activation: &ActivationReceipt,
        health: &HealthReceipt,
        decision: &OracleDecision,
    ) -> (result: (BrokerTransaction, Result<(u64, u32), BackendFault>))
        ensures
            old(self).acts(
                *final(self),
                PlatformEvent::Commit {
                    strategy: old(self).serves(),
                    transaction,
                    activation: *activation,
                    health: *health,
                    decision: *decision,
                    reply: result,
                },
            ),
    {
        match self {
            LabBroker::Native(broker) => broker.commit(transaction, activation, health, decision),
            LabBroker::Firmware(broker) => broker.commit(transaction, activation, health, decision),
            LabBroker::Quarantine(broker) => broker.commit(
                transaction,
                activation,
                health,
                decision,
            ),
        }
    }

    fn rollback(
        &mut self,
        transaction: BrokerTransaction,
        stage: DispatchStage,
        fault: BackendFault,
    ) -> (result: (BrokerTransaction, Result<(), BackendFault>))
        ensures
            old(self).acts(
                *final(self),
                PlatformEvent::Rollback {
                    strategy: old(self).serves(),
                    transaction,
                    stage,
                    fault,
                    reply: result,
                },
            ),
    {
        match self {
            LabBroker::Native(broker) => broker.rollback(transaction, stage, fault),
            LabBroker::Firmware(broker) => broker.rollback(transaction, stage, fault),
            LabBroker::Quarantine(broker) => broker.rollback(transaction, stage, fault),
        }
    }
}

} // verus!
