//! The parties of a driver transaction: the clock, the isolation of the device and the
//! brokers of the strategies, with one transcript of what they were asked.
//!
//! Only this module writes the transcript, one entry with each call. So a transcript that
//! grew as the histories of the parties did also holds their exchanges in the order in
//! which they were made.

use super::dispatch::{
    ActivationReceipt, BackendFault, DispatchStage, HealthReceipt, ProbeObservation,
};
use super::fingerprint::GpuFingerprint;
use super::model::{DriverStrategy, OracleDecision};
use super::platform::{BrokerTransaction, IsolationReceipt};
use super::registry::{ProbeStep, ShimDescriptor};
use vstd::prelude::*;

verus! {

/// One exchange with the clock, the isolation or a broker.
pub enum PlatformEvent {
    Clock(u64),
    Isolate {
        fingerprint: GpuFingerprint,
        descriptor: ShimDescriptor,
        reply: Result<IsolationReceipt, BackendFault>,
    },
    IsolationCommit { receipt: IsolationReceipt, reply: Result<(), BackendFault> },
    IsolationRollback {
        receipt: IsolationReceipt,
        stage: DispatchStage,
        fault: BackendFault,
        reply: Result<(), BackendFault>,
    },
    Begin {
        strategy: DriverStrategy,
        fingerprint: GpuFingerprint,
        descriptor: ShimDescriptor,
        isolation: IsolationReceipt,
        reply: Result<BrokerTransaction, BackendFault>,
    },
    Probe {
        strategy: DriverStrategy,
        transaction: BrokerTransaction,
        fingerprint: GpuFingerprint,
        descriptor: ShimDescriptor,
        step: ProbeStep,
        attempt: u8,
        reply: (BrokerTransaction, Result<ProbeObservation, BackendFault>),
    },
    Activate {
        strategy: DriverStrategy,
        transaction: BrokerTransaction,
        fingerprint: GpuFingerprint,
        descriptor: ShimDescriptor,
        isolation: IsolationReceipt,
        reply: (BrokerTransaction, Result<ActivationReceipt, BackendFault>),
    },
    Health {
        strategy: DriverStrategy,
        transaction: BrokerTransaction,
        activation: ActivationReceipt,
        descriptor: ShimDescriptor,
        reply: (BrokerTransaction, Result<HealthReceipt, BackendFault>),
    },
    Commit {
        strategy: DriverStrategy,
        transaction: BrokerTransaction,
        activation: ActivationReceipt,
        health: HealthReceipt,
        decision: OracleDecision,
        reply: (BrokerTransaction, Result<(u64, u32), BackendFault>),
    },
    Rollback {
        strategy: DriverStrategy,
        transaction: BrokerTransaction,
        stage: DispatchStage,
        fault: BackendFault,
        reply: (BrokerTransaction, Result<(), BackendFault>),
    },
}

/// A source of ticks. Each call adds one entry to its history.
pub trait DriverNetClock {
    /// All ticks that were read.
    open spec fn history(&self) -> Seq<PlatformEvent> {
        arbitrary()
    }

    fn now_tick(&mut self) -> (now: u64)
        ensures
            final(self).history() == old(self).history().push(PlatformEvent::Clock(now)),
    ;
}

/// A clock that is lent.
impl<K: DriverNetClock> DriverNetClock for &mut K {
    open spec fn history(&self) -> Seq<PlatformEvent> {
        (**self).history()
    }

    fn now_tick(&mut self) -> (now: u64) {
        (**self).now_tick()
    }
}

/// Whoever takes a device out of reach of the rest of the machine. Each call adds one
/// entry to its history.
pub trait DeviceIsolationBroker {
    /// All that was asked and answered.
    open spec fn history(&self) -> Seq<PlatformEvent> {
        arbitrary()
    }

    fn begin(
        &mut self,
        fingerprint: &GpuFingerprint,
        descriptor: &ShimDescriptor,
    ) -> (reply: Result<IsolationReceipt, BackendFault>)
        ensures
            final(self).history() == old(self).history().push(
                PlatformEvent::Isolate {
                    fingerprint: *fingerprint,
                    descriptor: *descriptor,
                    reply,
                },
            ),
    ;

    fn commit(
        &mut self,
        receipt: IsolationReceipt,
    ) -> (reply: Result<(), BackendFault>)
        ensures
            final(self).history() == old(self).history().push(
                PlatformEvent::IsolationCommit {
                    receipt,
                    reply,
                },
            ),
    ;

    fn rollback(
        &mut self,
        receipt: IsolationReceipt,
        stage: DispatchStage,
        fault: BackendFault,
    ) -> (reply: Result<(), BackendFault>)
        ensures
            final(self).history() == old(self).history().push(
                PlatformEvent::IsolationRollback {
                    receipt,
                    stage,
                    fault,
                    reply,
                },
            ),
    ;
}

/// An isolation that is lent.
impl<I: DeviceIsolationBroker> DeviceIsolationBroker for &mut I {
    open spec fn history(&self) -> Seq<PlatformEvent> {
        (**self).history()
    }

    fn begin(
        &mut self,
        fingerprint: &GpuFingerprint,
        descriptor: &ShimDescriptor,
    ) -> (reply: Result<IsolationReceipt, BackendFault>) {
        (**self).begin(fingerprint, descriptor)
    }

    fn commit(
        &mut self,
        receipt: IsolationReceipt,
    ) -> (reply: Result<(), BackendFault>) {
        (**self).commit(receipt)
    }

    fn rollback(
        &mut self,
        receipt: IsolationReceipt,
        stage: DispatchStage,
        fault: BackendFault,
    ) -> (reply: Result<(), BackendFault>) {
        (**self).rollback(receipt, stage, fault)
    }
}

/// Whoever drives a device under one strategy. A broker takes its transaction
/// over and hands it back with the answer. Each call adds one entry to its history.
pub trait StrategyBroker {
    spec fn serves(&self) -> DriverStrategy;

    /// All that the broker was asked and answered.
    open spec fn history(&self) -> Seq<PlatformEvent> {
        arbitrary()
    }

    fn strategy(&self) -> (strategy: DriverStrategy)
        ensures
            strategy == self.serves(),
    ;

    fn begin(
        &mut self,
        fingerprint: &GpuFingerprint,
        descriptor: &ShimDescriptor,
        isolation: IsolationReceipt,
    ) -> (reply: Result<BrokerTransaction, BackendFault>)
        ensures
            final(self).serves() == old(self).serves(),
            final(self).history() == old(self).history().push(
                PlatformEvent::Begin {
                    strategy: old(self).serves(),
                    fingerprint: *fingerprint,
                    descriptor: *descriptor,
                    isolation,
                    reply,
                },
            ),
    ;

    fn probe(
        &mut self,
        transaction: BrokerTransaction,
        fingerprint: &GpuFingerprint,
        descriptor: &ShimDescriptor,
        step: ProbeStep,
        attempt: u8,
    ) -> (reply: (BrokerTransaction, Result<ProbeObservation, BackendFault>))
        ensures
            final(self).serves() == old(self).serves(),
            final(self).history() == old(self).history().push(
                PlatformEvent::Probe {
                    strategy: old(self).serves(),
                    transaction,
                    fingerprint: *fingerprint,
                    descriptor: *descriptor,
                    step,
                    attempt,
                    reply,
                },
            ),
    ;

    fn activate(
        &mut self,
        transaction: BrokerTransaction,
        fingerprint: &GpuFingerprint,
        descriptor: &ShimDescriptor,
        isolation: IsolationReceipt,
    ) -> (reply: (BrokerTransaction, Result<ActivationReceipt, BackendFault>))
        ensures
            final(self).serves() == old(self).serves(),
            final(self).history() == old(self).history().push(
                PlatformEvent::Activate {
                    strategy: old(self).serves(),
                    transaction,
                    fingerprint: *fingerprint,
                    descriptor: *descriptor,
                    isolation,
                    reply,
                },
            ),
    ;

    fn health(
        &mut self,
        transaction: BrokerTransaction,
        activation: &ActivationReceipt,
        descriptor: &ShimDescriptor,
    ) -> (reply: (BrokerTransaction, Result<HealthReceipt, BackendFault>))
        ensures
            final(self).serves() == old(self).serves(),
            final(self).history() == old(self).history().push(
                PlatformEvent::Health {
                    strategy: old(self).serves(),
                    transaction,
                    activation: *activation,
                    descriptor: *descriptor,
                    reply,
                },
            ),
    ;

    fn commit(
        &mut self,
        transaction: BrokerTransaction,
        activation: &ActivationReceipt,
        health: &HealthReceipt,
        decision: &OracleDecision,
    ) -> (reply: (BrokerTransaction, Result<(u64, u32), BackendFault>))
        ensures
            final(self).serves() == old(self).serves(),
            final(self).history() == old(self).history().push(
                PlatformEvent::Commit {
                    strategy: old(self).serves(),
                    transaction,
                    activation: *activation,
                    health: *health,
                    decision: *decision,
                    reply,
                },
            ),
    ;

    fn rollback(
        &mut self,
        transaction: BrokerTransaction,
        stage: DispatchStage,
        fault: BackendFault,
    ) -> (reply: (BrokerTransaction, Result<(), BackendFault>))
        ensures
            final(self).serves() == old(self).serves(),
            final(self).history() == old(self).history().push(
                PlatformEvent::Rollback {
                    strategy: old(self).serves(),
                    transaction,
                    stage,
                    fault,
                    reply,
                },
            ),
    ;
}

pub open spec fn serves_each_once<S: StrategyBroker>(brokers: Seq<S>) -> bool {
    forall|i: int, j: int|
        0 <= i < j < brokers.len() ==> (#[trigger] brokers[i]).serves() != (
        #[trigger] brokers[j]).serves()
}

pub open spec fn serves_strategy<S: StrategyBroker>(
    brokers: Seq<S>,
    strategy: DriverStrategy,
) -> bool {
    exists|i: int| 0 <= i < brokers.len() && (#[trigger] brokers[i]).serves() == strategy
}

impl PlatformEvent {
    /// The strategy whose broker was asked, if it was a broker.
    pub open spec fn broker(self) -> Option<DriverStrategy> {
        match self {
            PlatformEvent::Begin { strategy, .. } => Some(strategy),
            PlatformEvent::Probe { strategy, .. } => Some(strategy),
            PlatformEvent::Activate { strategy, .. } => Some(strategy),
            PlatformEvent::Health { strategy, .. } => Some(strategy),
            PlatformEvent::Commit { strategy, .. } => Some(strategy),
            PlatformEvent::Rollback { strategy, .. } => Some(strategy),
            _ => None,
        }
    }
}

pub open spec fn of_clock() -> spec_fn(PlatformEvent) -> bool {
    |event: PlatformEvent| event is Clock
}

pub open spec fn of_isolation() -> spec_fn(PlatformEvent) -> bool {
    |event: PlatformEvent| !(event is Clock) && event.broker() is None
}

pub open spec fn of_broker(strategy: DriverStrategy) -> spec_fn(PlatformEvent) -> bool {
    |event: PlatformEvent| event.broker() == Some(strategy)
}

/// The transcript of the parties.
pub struct PartiesLog {
    entries: Ghost<Seq<PlatformEvent>>,
}

impl View for PartiesLog {
    type V = Seq<PlatformEvent>;

    closed spec fn view(&self) -> Seq<PlatformEvent> {
        self.entries@
    }
}

/// A clock, an isolation and brokers, with the transcript of what they were asked.
pub struct PlatformParties<K: DriverNetClock, I: DeviceIsolationBroker, S: StrategyBroker> {
    pub clock: K,
    pub isolation: I,
    pub brokers: Vec<S>,
    pub log: PartiesLog,
}

/// Whether a broker was asked what a transcript grew by of its strategy, and nothing else.
pub open spec fn broker_told<S: StrategyBroker>(
    log: Seq<PlatformEvent>,
    earlier: Seq<PlatformEvent>,
    broker: S,
    before: S,
) -> bool {
    &&& broker.serves() == before.serves()
    &&& crate::trace::told(
        log,
        earlier,
        broker.history(),
        before.history(),
        of_broker(before.serves()),
    )
}

impl<K: DriverNetClock, I: DeviceIsolationBroker, S: StrategyBroker> PlatformParties<K, I, S> {
    pub open spec fn log(&self) -> Seq<PlatformEvent> {
        self.log@
    }

    /// Whether this came of an earlier state by exchanges that the transcript and the
    /// histories of the parties hold, and by nothing else: each party was asked what the
    /// transcript grew by of it, once and in that order.
    #[verifier::opaque]
    pub open spec fn follows(self, earlier: Self) -> bool {
        &&& crate::trace::told(
            self.log(),
            earlier.log(),
            self.clock.history(),
            earlier.clock.history(),
            of_clock(),
        )
        &&& crate::trace::told(
            self.log(),
            earlier.log(),
            self.isolation.history(),
            earlier.isolation.history(),
            of_isolation(),
        )
        &&& self.brokers@.len() == earlier.brokers@.len()
        &&& forall|i: int|
            0 <= i < self.brokers@.len() ==> broker_told(
                self.log(),
                earlier.log(),
                #[trigger] self.brokers@[i],
                earlier.brokers@[i],
            )
    }

    pub fn new(clock: K, isolation: I, brokers: Vec<S>) -> (parties: Self)
        ensures
            parties.clock == clock,
            parties.isolation == isolation,
            parties.brokers == brokers,
            parties.log() == Seq::<PlatformEvent>::empty(),
    {
        PlatformParties {
            clock,
            isolation,
            brokers,
            log: PartiesLog { entries: Ghost(Seq::empty()) },
        }
    }

    pub(crate) fn now_tick(&mut self) -> (now: u64)
        ensures
            final(self).log() == old(self).log().push(PlatformEvent::Clock(now)),
            final(self).brokers == old(self).brokers,
            final(self).follows(*old(self)),
    {
        let now: u64 = self.clock.now_tick();
        proof {
            let entry = PlatformEvent::Clock(now);
            self.log.entries@ = self.log.entries@.push(entry);
            lemma_asked_clock(*old(self), *self, entry);
        }
        now
    }

    pub(crate) fn isolate(
        &mut self,
        fingerprint: &GpuFingerprint,
        descriptor: &ShimDescriptor,
    ) -> (reply: Result<IsolationReceipt, BackendFault>)
        ensures
            final(self).log() == old(self).log().push(
                PlatformEvent::Isolate {
                    fingerprint: *fingerprint,
                    descriptor: *descriptor,
                    reply,
                },
            ),
            final(self).brokers == old(self).brokers,
            final(self).follows(*old(self)),
    {
        let reply = self.isolation.begin(fingerprint, descriptor);
        proof {
            let entry = PlatformEvent::Isolate {
                fingerprint: *fingerprint,
                descriptor: *descriptor,
                reply,
            };
            self.log.entries@ = self.log.entries@.push(entry);
            lemma_asked_isolation(*old(self), *self, entry);
        }
        reply
    }

    pub(crate) fn commit_isolation(
        &mut self,
        receipt: IsolationReceipt,
    ) -> (reply: Result<(), BackendFault>)
        ensures
            final(self).log() == old(self).log().push(
                PlatformEvent::IsolationCommit {
                    receipt,
                    reply,
                },
            ),
            final(self).brokers == old(self).brokers,
            final(self).follows(*old(self)),
    {
        let reply = self.isolation.commit(receipt);
        proof {
            let entry = PlatformEvent::IsolationCommit {
                receipt,
                reply,
            };
            self.log.entries@ = self.log.entries@.push(entry);
            lemma_asked_isolation(*old(self), *self, entry);
        }
        reply
    }

    pub(crate) fn rollback_isolation(
        &mut self,
        receipt: IsolationReceipt,
        stage: DispatchStage,
        fault: BackendFault,
    ) -> (reply: Result<(), BackendFault>)
        ensures
            final(self).log() == old(self).log().push(
                PlatformEvent::IsolationRollback {
                    receipt,
                    stage,
                    fault,
                    reply,
                },
            ),
            final(self).brokers == old(self).brokers,
            final(self).follows(*old(self)),
    {
        let reply = self.isolation.rollback(receipt, stage, fault);
        proof {
            let entry = PlatformEvent::IsolationRollback {
                receipt,
                stage,
                fault,
                reply,
            };
            self.log.entries@ = self.log.entries@.push(entry);
            lemma_asked_isolation(*old(self), *self, entry);
        }
        reply
    }

    pub(crate) fn begin(
        &mut self,
        place: usize,
        fingerprint: &GpuFingerprint,
        descriptor: &ShimDescriptor,
        isolation: IsolationReceipt,
    ) -> (reply: Result<BrokerTransaction, BackendFault>)
        requires
            place < old(self).brokers@.len(),
        ensures
            final(self).log() == old(self).log().push(
                PlatformEvent::Begin {
                    strategy: old(self).brokers@[place as int].serves(),
                    fingerprint: *fingerprint,
                    descriptor: *descriptor,
                    isolation,
                    reply,
                },
            ),
            serves_each_once(old(self).brokers@) ==> final(self).follows(*old(self)),
    {
        let reply = self.brokers[place].begin(fingerprint, descriptor, isolation);
        proof {
            let entry = PlatformEvent::Begin {
                strategy: old(self).brokers@[place as int].serves(),
                fingerprint: *fingerprint,
                descriptor: *descriptor,
                isolation,
                reply,
            };
            self.log.entries@ = self.log.entries@.push(entry);
            if serves_each_once(old(self).brokers@) {
                lemma_asked_broker(*old(self), *self, place as int, entry);
            }
        }
        reply
    }

    pub(crate) fn probe(
        &mut self,
        place: usize,
        transaction: BrokerTransaction,
        fingerprint: &GpuFingerprint,
        descriptor: &ShimDescriptor,
        step: ProbeStep,
        attempt: u8,
    ) -> (reply: (BrokerTransaction, Result<ProbeObservation, BackendFault>))
        requires
            place < old(self).brokers@.len(),
        ensures
            final(self).log() == old(self).log().push(
                PlatformEvent::Probe {
                    strategy: old(self).brokers@[place as int].serves(),
                    transaction,
                    fingerprint: *fingerprint,
                    descriptor: *descriptor,
                    step,
                    attempt,
                    reply,
                },
            ),
            serves_each_once(old(self).brokers@) ==> final(self).follows(*old(self)),
    {
        let reply = self.brokers[place].probe(transaction, fingerprint, descriptor, step, attempt);
        proof {
            let entry = PlatformEvent::Probe {
                strategy: old(self).brokers@[place as int].serves(),
                transaction,
                fingerprint: *fingerprint,
                descriptor: *descriptor,
                step,
                attempt,
                reply,
            };
            self.log.entries@ = self.log.entries@.push(entry);
            if serves_each_once(old(self).brokers@) {
                lemma_asked_broker(*old(self), *self, place as int, entry);
            }
        }
        reply
    }

    pub(crate) fn activate(
        &mut self,
        place: usize,
        transaction: BrokerTransaction,
        fingerprint: &GpuFingerprint,
        descriptor: &ShimDescriptor,
        isolation: IsolationReceipt,
    ) -> (reply: (BrokerTransaction, Result<ActivationReceipt, BackendFault>))
        requires
            place < old(self).brokers@.len(),
        ensures
            final(self).log() == old(self).log().push(
                PlatformEvent::Activate {
                    strategy: old(self).brokers@[place as int].serves(),
                    transaction,
                    fingerprint: *fingerprint,
                    descriptor: *descriptor,
                    isolation,
                    reply,
                },
            ),
            serves_each_once(old(self).brokers@) ==> final(self).follows(*old(self)),
    {
        let reply = self.brokers[place].activate(transaction, fingerprint, descriptor, isolation);
        proof {
            let entry = PlatformEvent::Activate {
                strategy: old(self).brokers@[place as int].serves(),
                transaction,
                fingerprint: *fingerprint,
                descriptor: *descriptor,
                isolation,
                reply,
            };
            self.log.entries@ = self.log.entries@.push(entry);
            if serves_each_once(old(self).brokers@) {
                lemma_asked_broker(*old(self), *self, place as int, entry);
            }
        }
        reply
    }

    pub(crate) fn health(
        &mut self,
        place: usize,
        transaction: BrokerTransaction,
        activation: &ActivationReceipt,
        descriptor: &ShimDescriptor,
    ) -> (reply: (BrokerTransaction, Result<HealthReceipt, BackendFault>))
        requires
            place < old(self).brokers@.len(),
        ensures
            final(self).log() == old(self).log().push(
                PlatformEvent::Health {
                    strategy: old(self).brokers@[place as int].serves(),
                    transaction,
                    activation: *activation,
                    descriptor: *descriptor,
                    reply,
                },
            ),
            serves_each_once(old(self).brokers@) ==> final(self).follows(*old(self)),
    {
        let reply = self.brokers[place].health(transaction, activation, descriptor);
        proof {
            let entry = PlatformEvent::Health {
                strategy: old(self).brokers@[place as int].serves(),
                transaction,
                activation: *activation,
                descriptor: *descriptor,
                reply,
            };
            self.log.entries@ = self.log.entries@.push(entry);
            if serves_each_once(old(self).brokers@) {
                lemma_asked_broker(*old(self), *self, place as int, entry);
            }
        }
        reply
    }

    pub(crate) fn commit(
        &mut self,
        place: usize,
        transaction: BrokerTransaction,
        activation: &ActivationReceipt,
        health: &HealthReceipt,
        decision: &OracleDecision,
    ) -> (reply: (BrokerTransaction, Result<(u64, u32), BackendFault>))
        requires
            place < old(self).brokers@.len(),
        ensures
            final(self).log() == old(self).log().push(
                PlatformEvent::Commit {
                    strategy: old(self).brokers@[place as int].serves(),
                    transaction,
                    activation: *activation,
                    health: *health,
                    decision: *decision,
                    reply,
                },
            ),
            serves_each_once(old(self).brokers@) ==> final(self).follows(*old(self)),
    {
        let reply = self.brokers[place].commit(transaction, activation, health, decision);
        proof {
            let entry = PlatformEvent::Commit {
                strategy: old(self).brokers@[place as int].serves(),
                transaction,
                activation: *activation,
                health: *health,
                decision: *decision,
                reply,
            };
            self.log.entries@ = self.log.entries@.push(entry);
            if serves_each_once(old(self).brokers@) {
                lemma_asked_broker(*old(self), *self, place as int, entry);
            }
        }
        reply
    }

    pub(crate) fn rollback(
        &mut self,
        place: usize,
        transaction: BrokerTransaction,
        stage: DispatchStage,
        fault: BackendFault,
    ) -> (reply: (BrokerTransaction, Result<(), BackendFault>))
        requires
            place < old(self).brokers@.len(),
        ensures
            final(self).log() == old(self).log().push(
                PlatformEvent::Rollback {
                    strategy: old(self).brokers@[place as int].serves(),
                    transaction,
                    stage,
                    fault,
                    reply,
                },
            ),
            serves_each_once(old(self).brokers@) ==> final(self).follows(*old(self)),
    {
        let reply = self.brokers[place].rollback(transaction, stage, fault);
        proof {
            let entry = PlatformEvent::Rollback {
                strategy: old(self).brokers@[place as int].serves(),
                transaction,
                stage,
                fault,
                reply,
            };
            self.log.entries@ = self.log.entries@.push(entry);
            if serves_each_once(old(self).brokers@) {
                lemma_asked_broker(*old(self), *self, place as int, entry);
            }
        }
        reply
    }
}

pub broadcast proof fn lemma_follows_itself<
    K: DriverNetClock,
    I: DeviceIsolationBroker,
    S: StrategyBroker,
>(
    parties: PlatformParties<K, I, S>,
)
    ensures
        #[trigger] parties.follows(parties),
{
    reveal(PlatformParties::follows);
    crate::trace::lemma_told_nothing(parties.log(), parties.clock.history(), of_clock());
    crate::trace::lemma_told_nothing(parties.log(), parties.isolation.history(), of_isolation());
    assert forall|i: int| 0 <= i < parties.brokers@.len() implies broker_told(
        parties.log(),
        parties.log(),
        #[trigger] parties.brokers@[i],
        parties.brokers@[i],
    ) by {
        crate::trace::lemma_told_nothing(
            parties.log(),
            parties.brokers@[i].history(),
            of_broker(parties.brokers@[i].serves()),
        );
    }
}

pub broadcast proof fn lemma_follows_continues<
    K: DriverNetClock,
    I: DeviceIsolationBroker,
    S: StrategyBroker,
>(
    parties: PlatformParties<K, I, S>,
    earlier: PlatformParties<K, I, S>,
)
    requires
        #[trigger] parties.follows(earlier),
    ensures
        crate::trace::continues(parties.log(), earlier.log()),
{
    reveal(PlatformParties::follows);
}

/// The brokers keep their strategies.
pub broadcast proof fn lemma_follows_serves<
    K: DriverNetClock,
    I: DeviceIsolationBroker,
    S: StrategyBroker,
>(
    parties: PlatformParties<K, I, S>,
    earlier: PlatformParties<K, I, S>,
)
    requires
        #[trigger] parties.follows(earlier),
    ensures
        serves_each_once(parties.brokers@) == serves_each_once(earlier.brokers@),
        forall|strategy: DriverStrategy| #[trigger]
            serves_strategy(parties.brokers@, strategy) == serves_strategy(
                earlier.brokers@,
                strategy,
            ),
{
    reveal(PlatformParties::follows);
    assert(forall|i: int|
        0 <= i < parties.brokers@.len() ==> (#[trigger] parties.brokers@[i]).serves()
            == earlier.brokers@[i].serves());
    assert(forall|i: int|
        0 <= i < parties.brokers@.len() ==> (#[trigger] earlier.brokers@[i]).serves()
            == parties.brokers@[i].serves());
}

pub broadcast proof fn lemma_follows_through<
    K: DriverNetClock,
    I: DeviceIsolationBroker,
    S: StrategyBroker,
>(
    parties: PlatformParties<K, I, S>,
    middle: PlatformParties<K, I, S>,
    earlier: PlatformParties<K, I, S>,
)
    requires
        #[trigger] parties.follows(middle),
        #[trigger] middle.follows(earlier),
    ensures
        parties.follows(earlier),
{
    reveal(PlatformParties::follows);
    crate::trace::lemma_told_through(
        parties.log(),
        middle.log(),
        earlier.log(),
        parties.clock.history(),
        middle.clock.history(),
        earlier.clock.history(),
        of_clock(),
    );
    crate::trace::lemma_told_through(
        parties.log(),
        middle.log(),
        earlier.log(),
        parties.isolation.history(),
        middle.isolation.history(),
        earlier.isolation.history(),
        of_isolation(),
    );
    assert forall|i: int| 0 <= i < parties.brokers@.len() implies broker_told(
        parties.log(),
        earlier.log(),
        #[trigger] parties.brokers@[i],
        earlier.brokers@[i],
    ) by {
        assert(broker_told(middle.log(), earlier.log(), middle.brokers@[i], earlier.brokers@[i]));
        crate::trace::lemma_told_through(
            parties.log(),
            middle.log(),
            earlier.log(),
            parties.brokers@[i].history(),
            middle.brokers@[i].history(),
            earlier.brokers@[i].history(),
            of_broker(earlier.brokers@[i].serves()),
        );
    }
}

proof fn lemma_asked_clock<K: DriverNetClock, I: DeviceIsolationBroker, S: StrategyBroker>(
    before: PlatformParties<K, I, S>,
    after: PlatformParties<K, I, S>,
    entry: PlatformEvent,
)
    requires
        entry is Clock,
        after.log() == before.log().push(entry),
        after.clock.history() == before.clock.history().push(entry),
        after.isolation == before.isolation,
        after.brokers == before.brokers,
    ensures
        after.follows(before),
{
    reveal(PlatformParties::follows);
    crate::trace::lemma_told_one(before.log(), entry, before.clock.history(), of_clock());
    crate::trace::lemma_told_one(before.log(), entry, before.isolation.history(), of_isolation());
    lemma_asked_no_broker(before, after, entry);
}

proof fn lemma_asked_isolation<K: DriverNetClock, I: DeviceIsolationBroker, S: StrategyBroker>(
    before: PlatformParties<K, I, S>,
    after: PlatformParties<K, I, S>,
    entry: PlatformEvent,
)
    requires
        !(entry is Clock),
        entry.broker() is None,
        after.log() == before.log().push(entry),
        after.isolation.history() == before.isolation.history().push(entry),
        after.clock == before.clock,
        after.brokers == before.brokers,
    ensures
        after.follows(before),
{
    reveal(PlatformParties::follows);
    crate::trace::lemma_told_one(before.log(), entry, before.clock.history(), of_clock());
    crate::trace::lemma_told_one(before.log(), entry, before.isolation.history(), of_isolation());
    lemma_asked_no_broker(before, after, entry);
}

proof fn lemma_asked_no_broker<K: DriverNetClock, I: DeviceIsolationBroker, S: StrategyBroker>(
    before: PlatformParties<K, I, S>,
    after: PlatformParties<K, I, S>,
    entry: PlatformEvent,
)
    requires
        entry.broker() is None,
        after.log() == before.log().push(entry),
        after.brokers == before.brokers,
    ensures
        forall|i: int|
            0 <= i < after.brokers@.len() ==> broker_told(
                after.log(),
                before.log(),
                #[trigger] after.brokers@[i],
                before.brokers@[i],
            ),
{
    assert forall|i: int| 0 <= i < after.brokers@.len() implies broker_told(
        after.log(),
        before.log(),
        #[trigger] after.brokers@[i],
        before.brokers@[i],
    ) by {
        crate::trace::lemma_told_one(
            before.log(),
            entry,
            before.brokers@[i].history(),
            of_broker(before.brokers@[i].serves()),
        );
    }
}

proof fn lemma_asked_broker<K: DriverNetClock, I: DeviceIsolationBroker, S: StrategyBroker>(
    before: PlatformParties<K, I, S>,
    after: PlatformParties<K, I, S>,
    place: int,
    entry: PlatformEvent,
)
    requires
        0 <= place < before.brokers@.len(),
        serves_each_once(before.brokers@),
        entry.broker() == Some(before.brokers@[place].serves()),
        after.log() == before.log().push(entry),
        after.clock == before.clock,
        after.isolation == before.isolation,
        after.brokers@.len() == before.brokers@.len(),
        after.brokers@[place].serves() == before.brokers@[place].serves(),
        after.brokers@[place].history() == before.brokers@[place].history().push(entry),
        forall|i: int|
            0 <= i < before.brokers@.len() && i != place ==> #[trigger] after.brokers@[i]
                == before.brokers@[i],
    ensures
        after.follows(before),
{
    reveal(PlatformParties::follows);
    crate::trace::lemma_told_one(before.log(), entry, before.clock.history(), of_clock());
    crate::trace::lemma_told_one(before.log(), entry, before.isolation.history(), of_isolation());
    assert forall|i: int| 0 <= i < after.brokers@.len() implies broker_told(
        after.log(),
        before.log(),
        #[trigger] after.brokers@[i],
        before.brokers@[i],
    ) by {
        crate::trace::lemma_told_one(
            before.log(),
            entry,
            before.brokers@[i].history(),
            of_broker(before.brokers@[i].serves()),
        );
        if i < place {
            assert(before.brokers@[i].serves() != before.brokers@[place].serves());
        } else if place < i {
            assert(before.brokers@[place].serves() != before.brokers@[i].serves());
        }
    }
}

} // verus!
