//! The backend that isolates a device and hands it to the broker of a strategy.

use super::dispatch::{
    ActivationReceipt, BackendEvent, BackendFault, DispatchStage, DriverLease, DriverNetBackend,
    FaultCode, HealthReceipt, ProbeObservation, ProbeTransaction,
};
use super::fingerprint::GpuFingerprint;
use super::model::{DriverStrategy, OracleDecision};
use super::model_weights::STRATEGY_COUNT;
pub use super::parties::{
    DeviceIsolationBroker, DriverNetClock, PlatformEvent, PlatformParties, StrategyBroker,
};
use super::registry::{ProbeStep, ShimDescriptor};
use crate::seal::mix;
use vstd::prelude::*;

verus! {

broadcast use {
    crate::trace::lemma_continues_through,
    super::parties::lemma_follows_itself,
    super::parties::lemma_follows_continues,
    super::parties::lemma_follows_through,
    super::parties::lemma_follows_serves,
};

#[derive(Clone, Copy, Debug, PartialEq, Eq)]
pub struct IsolationReceipt {
    pub token: u64,
    pub domain: u64,
    pub firmware_preserved: bool,
    pub root: u64,
}

impl IsolationReceipt {
    #[verifier::allow_in_spec]
    pub fn valid(self) -> bool
        returns
            self.token != 0 && self.root != 0,
    {
        self.token != 0 && self.root != 0
    }
}

#[derive(Clone, Copy, Debug, PartialEq, Eq)]
pub struct BrokerTransaction {
    pub token: u64,
    pub state: [u64; 8],
    pub root: u64,
}

impl BrokerTransaction {
    #[verifier::allow_in_spec]
    pub fn valid(self) -> bool
        returns
            self.token != 0 && self.root != 0,
    {
        self.token != 0 && self.root != 0
    }
}

#[derive(Clone, Copy, Debug, PartialEq, Eq, Structural)]
pub enum PlatformError {
    DuplicateBroker,
    MissingBroker,
    InvalidSecret,
}

/// The value, or one where it is zero.
#[verifier::allow_in_spec]
pub fn at_least_one(value: u64) -> u64
    returns
        (if value == 0 {
            1u64
        } else {
            value
        }),
{
    if value == 0 {
        1
    } else {
        value
    }
}

/// The isolation that a transaction carries.
#[verifier::allow_in_spec]
pub fn decode_isolation(transaction: &ProbeTransaction) -> IsolationReceipt
    returns
        (IsolationReceipt {
            token: transaction.backend_state[0],
            domain: transaction.backend_state[1],
            firmware_preserved: transaction.firmware_preserved,
            root: transaction.backend_state[2],
        }),
{
    IsolationReceipt {
        token: transaction.backend_state[0],
        domain: transaction.backend_state[1],
        firmware_preserved: transaction.firmware_preserved,
        root: transaction.backend_state[2],
    }
}

/// The broker's transaction that a transaction carries.
#[verifier::allow_in_spec]
pub fn decode_broker(transaction: &ProbeTransaction) -> BrokerTransaction
    returns
        (BrokerTransaction {
            token: transaction.backend_state[3],
            state: [
                transaction.backend_state[4],
                transaction.backend_state[5],
                transaction.backend_state[6],
                transaction.backend_state[7],
                0u64,
                0u64,
                0u64,
                0u64,
            ],
            root: transaction.observation_root,
        }),
{
    BrokerTransaction {
        token: transaction.backend_state[3],
        state: [
            transaction.backend_state[4],
            transaction.backend_state[5],
            transaction.backend_state[6],
            transaction.backend_state[7],
            0u64,
            0u64,
            0u64,
            0u64,
        ],
        root: transaction.observation_root,
    }
}

/// The transaction with the broker's transaction put back.
pub open spec fn encoded_broker(
    transaction: ProbeTransaction,
    broker: BrokerTransaction,
) -> ProbeTransaction {
    ProbeTransaction {
        backend_state: [
            transaction.backend_state[0],
            transaction.backend_state[1],
            transaction.backend_state[2],
            broker.token,
            broker.state[0],
            broker.state[1],
            broker.state[2],
            broker.state[3],
        ],
        observation_root: crate::seal::mix_of(transaction.observation_root, broker.root),
        ..transaction
    }
}

pub fn encode_broker(transaction: &mut ProbeTransaction, broker: BrokerTransaction)
    ensures
        *final(transaction) == encoded_broker(*old(transaction), broker),
{
    transaction.backend_state = [
        transaction.backend_state[0],
        transaction.backend_state[1],
        transaction.backend_state[2],
        broker.token,
        broker.state[0],
        broker.state[1],
        broker.state[2],
        broker.state[3],
    ];
    transaction.observation_root = mix(transaction.observation_root, broker.root);
}

/// The transaction that a successful begin opens.
pub open spec fn opened_transaction(
    token: u64,
    now: u64,
    fingerprint: GpuFingerprint,
    descriptor: ShimDescriptor,
    decision: OracleDecision,
    isolation: IsolationReceipt,
    broker: BrokerTransaction,
) -> ProbeTransaction {
    ProbeTransaction {
        token,
        fingerprint_root: fingerprint.evidence_root,
        strategy: descriptor.strategy,
        started_tick: now,
        deadline_tick: now.saturating_add(descriptor.program.maximum_total_ticks).saturating_add(
            descriptor.activation_budget_ticks,
        ).saturating_add(descriptor.health_budget_ticks),
        evidence_mask: 0,
        observation_root: crate::seal::mix_of(decision.decision_root, broker.root),
        firmware_preserved: isolation.firmware_preserved,
        backend_state: [
            isolation.token,
            isolation.domain,
            isolation.root,
            broker.token,
            broker.state[0],
            broker.state[1],
            broker.state[2],
            broker.state[3],
        ],
    }
}

/// A backend over a clock, an isolation and one broker per strategy.
pub struct BlackLabDriverPlatform<K: DriverNetClock, I: DeviceIsolationBroker, S: StrategyBroker> {
    pub parties: PlatformParties<K, I, S>,
    pub secret: u64,
    pub next_transaction: u64,
    pub last_tick: u64,
    pub asked: Ghost<Seq<BackendEvent>>,
}

/// What a tick that was read does to the clock check.
pub open spec fn tick_outcome(last: u64, now: u64) -> Result<u64, BackendFault> {
    if last != 0 && now < last {
        Err(BackendFault::new(FaultCode::TimeRegression, false, now))
    } else {
        Ok(now)
    }
}

pub open spec fn ticked(last: u64, now: u64) -> u64 {
    if last != 0 && now < last {
        last
    } else {
        now
    }
}

impl<K: DriverNetClock, I: DeviceIsolationBroker, S: StrategyBroker> BlackLabDriverPlatform<
    K,
    I,
    S,
> {
    pub open spec fn log(&self) -> Seq<PlatformEvent> {
        self.parties.log()
    }

    pub open spec fn wf(&self) -> bool {
        &&& self.secret != 0
        &&& self.next_transaction != 0
        &&& super::parties::serves_each_once(self.parties.brokers@)
        &&& forall|strategy: DriverStrategy| #[trigger]
            super::parties::serves_strategy(self.parties.brokers@, strategy)
    }

    pub fn new(clock: K, isolation: I, brokers: Vec<S>, secret: u64) -> (result: Result<
        Self,
        PlatformError,
    >)
        ensures
            match result {
                Ok(platform) => {
                    &&& platform.wf()
                    &&& super::parties::serves_each_once(brokers@)
                    &&& platform.parties.clock == clock
                    &&& platform.parties.isolation == isolation
                    &&& platform.parties.brokers == brokers
                    &&& platform.secret == secret
                    &&& platform.next_transaction == 1
                    &&& platform.last_tick == 0
                    &&& platform.log() == Seq::<PlatformEvent>::empty()
                    &&& platform.history() == Seq::<BackendEvent>::empty()
                },
                Err(error) => if secret == 0 {
                    error == PlatformError::InvalidSecret
                } else if !super::parties::serves_each_once(brokers@) {
                    error == PlatformError::DuplicateBroker
                } else {
                    error == PlatformError::MissingBroker && exists|strategy: DriverStrategy|
                        !(#[trigger] super::parties::serves_strategy(brokers@, strategy))
                },
            },
    {
        if secret == 0 {
            return Err(PlatformError::InvalidSecret);
        }
        let mut left: usize = 0;
        while left < brokers.len()
            invariant
                secret != 0,
                left <= brokers@.len(),
                forall|i: int, j: int|
                    0 <= i < left && i < j < brokers@.len() ==> (#[trigger] brokers@[i]).serves()
                        != (#[trigger] brokers@[j]).serves(),
            decreases brokers@.len() - left,
        {
            let mut right: usize = left + 1;
            while right < brokers.len()
                invariant
                    secret != 0,
                    left < right <= brokers@.len(),
                    forall|j: int|
                        left < j < right ==> brokers@[left as int].serves() != (
                        #[trigger] brokers@[j]).serves(),
                decreases brokers@.len() - right,
            {
                if brokers[left].strategy() == brokers[right].strategy() {
                    assert(brokers@[left as int].serves() == brokers@[right as int].serves());
                    return Err(PlatformError::DuplicateBroker);
                }
                right += 1;
            }
            left += 1;
        }
        let mut index: usize = 0;
        while index < STRATEGY_COUNT
            invariant
                secret != 0,
                index <= STRATEGY_COUNT,
                super::parties::serves_each_once(brokers@),
                forall|strategy: DriverStrategy|
                    strategy.index() < index ==> #[trigger] super::parties::serves_strategy(
                        brokers@,
                        strategy,
                    ),
            decreases STRATEGY_COUNT - index,
        {
            let strategy = DriverStrategy::from_index(index);
            if find_broker(&brokers, strategy).is_none() {
                assert(!super::parties::serves_strategy(brokers@, strategy));
                return Err(PlatformError::MissingBroker);
            }
            assert forall|other: DriverStrategy|
                other.index() < index + 1 implies #[trigger] super::parties::serves_strategy(
                brokers@,
                other,
            ) by {
                if other.index() == index {
                    assert(other == strategy);
                }
            }
            index += 1;
        }
        Ok(
            BlackLabDriverPlatform {
                parties: PlatformParties::new(clock, isolation, brokers),
                secret,
                next_transaction: 1,
                last_tick: 0,
                asked: Ghost(Seq::empty()),
            },
        )
    }

    fn monotonic_tick(&mut self) -> (result: Result<u64, BackendFault>)
        ensures
            final(self).asked == old(self).asked,
            final(self).parties.follows(old(self).parties),
            final(self).secret == old(self).secret,
            final(self).next_transaction == old(self).next_transaction,
            clock_at(final(self).log(), old(self).log().len() as int) matches Some(now) && {
                &&& result == tick_outcome(old(self).last_tick, now)
                &&& final(self).last_tick == ticked(old(self).last_tick, now)
                &&& final(self).log() == old(self).log().push(PlatformEvent::Clock(now))
            },
    {
        let now: u64 = self.parties.now_tick();
        if self.last_tick != 0 && now < self.last_tick {
            return Err(BackendFault::new(FaultCode::TimeRegression, false, now));
        }
        self.last_tick = now;
        Ok(now)
    }

    /// The broker of a strategy.
    fn broker(&self, strategy: DriverStrategy) -> (result: Result<usize, BackendFault>)
        ensures
            match result {
                Ok(place) => place < self.parties.brokers@.len()
                    && self.parties.brokers@[place as int].serves()
                    == strategy,
                Err(fault) => !super::parties::serves_strategy(
                    self.parties.brokers@,
                    strategy,
                ) && fault
                    == BackendFault::new(
                    FaultCode::RegistryFault,
                    false,
                    strategy.index() as u64,
                ),
            },
    {
        match find_broker(&self.parties.brokers, strategy) {
            Some(place) => Ok(place),
            None => Err(
                BackendFault::new(FaultCode::RegistryFault, false, strategy.index() as u64),
            ),
        }
    }
}

fn find_broker<S: StrategyBroker>(brokers: &Vec<S>, strategy: DriverStrategy) -> (place: Option<
    usize,
>)
    ensures
        match place {
            Some(index) => index < brokers@.len() && brokers@[index as int].serves() == strategy,
            None => !super::parties::serves_strategy(brokers@, strategy),
        },
{
    let mut index: usize = 0;
    while index < brokers.len()
        invariant
            index <= brokers@.len(),
            forall|i: int| 0 <= i < index ==> (#[trigger] brokers@[i]).serves() != strategy,
        decreases brokers@.len() - index,
    {
        if brokers[index].strategy() == strategy {
            return Some(index);
        }
        index += 1;
    }
    None
}

pub open spec fn clock_at(log: Seq<PlatformEvent>, at: int) -> Option<u64> {
    if 0 <= at < log.len() && log[at] is Clock {
        Some(log[at]->Clock_0)
    } else {
        None
    }
}

/// What beginning comes to: the clock is read, the device isolated and the
/// broker asked; a broker that refuses has the isolation undone.
pub open spec fn begin_run(
    last_tick: u64,
    token: u64,
    fingerprint: GpuFingerprint,
    descriptor: ShimDescriptor,
    decision: OracleDecision,
    log: Seq<PlatformEvent>,
    at: int,
) -> Option<(Result<ProbeTransaction, BackendFault>, int)> {
    match clock_at(log, at) {
        None => None,
        Some(now) => match tick_outcome(last_tick, now) {
            Err(fault) => Some((Err(fault), at + 1)),
            Ok(_) => if !(at + 1 < log.len() && log[at + 1] is Isolate
                && log[at + 1]->Isolate_fingerprint == fingerprint
                && log[at + 1]->Isolate_descriptor == descriptor) {
                None
            } else {
                match log[at + 1]->Isolate_reply {
                    Err(fault) => Some((Err(fault), at + 2)),
                    Ok(isolation) => if !isolation.valid() {
                        Some(
                            (
                                Err(
                                    BackendFault::new(
                                        FaultCode::TransactionRejected,
                                        false,
                                        isolation.token,
                                    ),
                                ),
                                at + 2,
                            ),
                        )
                    } else if !(at + 2 < log.len() && log[at + 2] is Begin
                        && log[at + 2]->Begin_strategy == descriptor.strategy
                        && log[at + 2]->Begin_fingerprint == fingerprint
                        && log[at + 2]->Begin_descriptor == descriptor
                        && log[at + 2]->Begin_isolation == isolation) {
                        None
                    } else {
                        let reply = log[at + 2]->Begin_reply;
                        if reply is Ok && reply->Ok_0.valid() {
                            Some(
                                (
                                    Ok(
                                        opened_transaction(
                                            token,
                                            now,
                                            fingerprint,
                                            descriptor,
                                            decision,
                                            isolation,
                                            reply->Ok_0,
                                        ),
                                    ),
                                    at + 3,
                                ),
                            )
                        } else {
                            let fault = if reply is Ok {
                                BackendFault::new(
                                    FaultCode::TransactionRejected,
                                    false,
                                    reply->Ok_0.token,
                                )
                            } else {
                                reply->Err_0
                            };
                            if at + 3 < log.len() && log[at + 3] is IsolationRollback
                                && log[at + 3]->IsolationRollback_receipt == isolation
                                && log[at + 3]->IsolationRollback_stage
                                == DispatchStage::BeginTransaction
                                && log[at + 3]->IsolationRollback_fault == fault {
                                Some((Err(fault), at + 4))
                            } else {
                                None
                            }
                        }
                    },
                }
            },
        },
    }
}

/// What a probe step comes to: within the deadline and with a valid isolation
/// the broker is asked; only its success changes the transaction.
pub open spec fn probe_run(
    last_tick: u64,
    transaction: ProbeTransaction,
    fingerprint: GpuFingerprint,
    descriptor: ShimDescriptor,
    step: ProbeStep,
    attempt: u8,
    log: Seq<PlatformEvent>,
    at: int,
) -> Option<(Result<ProbeObservation, BackendFault>, ProbeTransaction, int)> {
    match clock_at(log, at) {
        None => None,
        Some(now) => match tick_outcome(last_tick, now) {
            Err(fault) => Some((Err(fault), transaction, at + 1)),
            Ok(_) => if now > transaction.deadline_tick {
                Some(
                    (
                        Err(
                            BackendFault::new(
                                FaultCode::ProbeTimeout,
                                false,
                                transaction.deadline_tick,
                            ),
                        ),
                        transaction,
                        at + 1,
                    ),
                )
            } else if !decode_isolation(&transaction).valid() {
                Some(
                    (
                        Err(
                            BackendFault::new(
                                FaultCode::TransactionRejected,
                                false,
                                decode_isolation(&transaction).token,
                            ),
                        ),
                        transaction,
                        at + 1,
                    ),
                )
            } else if at + 1 < log.len() && log[at + 1] is Probe && log[at + 1]->Probe_strategy
                == descriptor.strategy && log[at + 1]->Probe_transaction == decode_broker(
                &transaction,
            ) && log[at + 1]->Probe_fingerprint == fingerprint && log[at + 1]->Probe_descriptor
                == descriptor && log[at + 1]->step == step && log[at + 1]->attempt == attempt {
                let reply = log[at + 1]->Probe_reply;
                Some(
                    (
                        reply.1,
                        if reply.1 is Ok {
                            encoded_broker(transaction, reply.0)
                        } else {
                            transaction
                        },
                        at + 2,
                    ),
                )
            } else {
                None
            },
        },
    }
}

pub open spec fn activate_run(
    last_tick: u64,
    transaction: ProbeTransaction,
    fingerprint: GpuFingerprint,
    descriptor: ShimDescriptor,
    log: Seq<PlatformEvent>,
    at: int,
) -> Option<(Result<ActivationReceipt, BackendFault>, ProbeTransaction, int)> {
    match clock_at(log, at) {
        None => None,
        Some(now) => match tick_outcome(last_tick, now) {
            Err(fault) => Some((Err(fault), transaction, at + 1)),
            Ok(_) => if at + 1 < log.len() && log[at + 1] is Activate
                && log[at + 1]->Activate_strategy == descriptor.strategy
                && log[at + 1]->Activate_transaction == decode_broker(&transaction)
                && log[at + 1]->Activate_fingerprint == fingerprint
                && log[at + 1]->Activate_descriptor == descriptor
                && log[at + 1]->Activate_isolation == decode_isolation(&transaction) {
                let reply = log[at + 1]->Activate_reply;
                Some(
                    (
                        reply.1,
                        if reply.1 is Ok {
                            encoded_broker(transaction, reply.0)
                        } else {
                            transaction
                        },
                        at + 2,
                    ),
                )
            } else {
                None
            },
        },
    }
}

pub open spec fn health_run(
    last_tick: u64,
    transaction: ProbeTransaction,
    activation: ActivationReceipt,
    descriptor: ShimDescriptor,
    log: Seq<PlatformEvent>,
    at: int,
) -> Option<(Result<HealthReceipt, BackendFault>, ProbeTransaction, int)> {
    match clock_at(log, at) {
        None => None,
        Some(now) => match tick_outcome(last_tick, now) {
            Err(fault) => Some((Err(fault), transaction, at + 1)),
            Ok(_) => if at + 1 < log.len() && log[at + 1] is Health && log[at + 1]->Health_strategy
                == descriptor.strategy && log[at + 1]->Health_transaction == decode_broker(
                &transaction,
            ) && log[at + 1]->Health_activation == activation && log[at + 1]->Health_descriptor
                == descriptor {
                let reply = log[at + 1]->Health_reply;
                Some(
                    (
                        reply.1,
                        if reply.1 is Ok {
                            encoded_broker(transaction, reply.0)
                        } else {
                            transaction
                        },
                        at + 2,
                    ),
                )
            } else {
                None
            },
        },
    }
}

/// The lease that a successful commit hands out.
pub open spec fn committed_lease(
    transaction: ProbeTransaction,
    activation: ActivationReceipt,
    health: HealthReceipt,
    decision: OracleDecision,
    granted: (u64, u32),
    now: u64,
) -> DriverLease {
    DriverLease {
        handle: granted.0,
        generation: granted.1,
        strategy: transaction.strategy,
        fingerprint_root: transaction.fingerprint_root,
        decision_root: decision.decision_root,
        activation_root: crate::seal::mix_of(
            activation.transport_root,
            activation.activation_epoch,
        ),
        health_root: health.root,
        framebuffer_object: activation.framebuffer_object,
        committed_tick: at_least_one(now),
    }
}

pub open spec fn commit_run(
    last_tick: u64,
    transaction: ProbeTransaction,
    activation: ActivationReceipt,
    health: HealthReceipt,
    decision: OracleDecision,
    log: Seq<PlatformEvent>,
    at: int,
) -> Option<(Result<DriverLease, BackendFault>, ProbeTransaction, int)> {
    match clock_at(log, at) {
        None => None,
        Some(now) => match tick_outcome(last_tick, now) {
            Err(fault) => Some((Err(fault), transaction, at + 1)),
            Ok(_) => if !(at + 1 < log.len() && log[at + 1] is Commit
                && log[at + 1]->Commit_strategy == transaction.strategy
                && log[at + 1]->Commit_transaction == decode_broker(&transaction)
                && log[at + 1]->Commit_activation == activation && log[at + 1]->health == health
                && log[at + 1]->decision == decision) {
                None
            } else {
                let reply = log[at + 1]->Commit_reply;
                match reply.1 {
                    Err(fault) => Some((Err(fault), transaction, at + 2)),
                    Ok(granted) => if granted.0 == 0 || granted.1 == 0 {
                        Some(
                            (
                                Err(BackendFault::new(FaultCode::CommitFault, false, granted.0)),
                                encoded_broker(transaction, reply.0),
                                at + 2,
                            ),
                        )
                    } else if at + 2 < log.len() && log[at + 2] is IsolationCommit
                        && log[at + 2]->IsolationCommit_receipt == decode_isolation(
                        &transaction,
                    ) {
                        match log[at + 2]->IsolationCommit_reply {
                            Err(fault) => Some(
                                (Err(fault), encoded_broker(transaction, reply.0), at + 3),
                            ),
                            Ok(()) => Some(
                                (
                                    Ok(
                                        committed_lease(
                                            transaction,
                                            activation,
                                            health,
                                            decision,
                                            granted,
                                            now,
                                        ),
                                    ),
                                    encoded_broker(transaction, reply.0),
                                    at + 3,
                                ),
                            ),
                        }
                    } else {
                        None
                    },
                }
            },
        },
    }
}

/// What a rollback comes to: broker and isolation are both undone, whatever
/// the other says, and the broker's fault is reported first.
pub open spec fn rollback_run(
    transaction: ProbeTransaction,
    stage: DispatchStage,
    fault: BackendFault,
    log: Seq<PlatformEvent>,
    at: int,
) -> Option<(Result<(), BackendFault>, ProbeTransaction, int)> {
    if at + 1 < log.len() && log[at] is Rollback && log[at]->Rollback_strategy
        == transaction.strategy && log[at]->Rollback_transaction == decode_broker(&transaction)
        && log[at]->Rollback_stage == stage && log[at]->Rollback_fault == fault && log[at
        + 1] is IsolationRollback && log[at + 1]->IsolationRollback_receipt == decode_isolation(
        &transaction,
    ) && log[at + 1]->IsolationRollback_stage == stage && log[at + 1]->IsolationRollback_fault
        == fault {
        let broker = log[at]->Rollback_reply;
        let isolation = log[at + 1]->IsolationRollback_reply;
        Some(
            (
                if broker.1 is Err {
                    broker.1
                } else {
                    isolation
                },
                encoded_broker(transaction, broker.0),
                at + 2,
            ),
        )
    } else {
        None
    }
}

impl<K: DriverNetClock, I: DeviceIsolationBroker, S: StrategyBroker> BlackLabDriverPlatform<
    K,
    I,
    S,
> {
    fn begin_transaction(
        &mut self,
        fingerprint: &GpuFingerprint,
        descriptor: &ShimDescriptor,
        decision: &OracleDecision,
    ) -> (result: Result<ProbeTransaction, BackendFault>)
        ensures
            final(self).asked == old(self).asked,
            old(self).wf() ==> {
                &&& final(self).wf()
                &&& final(self).secret == old(self).secret
                &&& final(self).parties.follows(old(self).parties)
                &&& clock_at(final(self).log(), old(self).log().len() as int) matches Some(now)
                    && final(self).last_tick == ticked(old(self).last_tick, now)
                &&& begin_run(
                    old(self).last_tick,
                    at_least_one(
                        crate::seal::mix_of(
                            old(self).secret,
                            old(self).next_transaction ^ fingerprint.evidence_root
                                ^ decision.decision_root,
                        ),
                    ),
                    *fingerprint,
                    *descriptor,
                    *decision,
                    final(self).log(),
                    old(self).log().len() as int,
                ) == Some((result, final(self).log().len() as int))
                &&& final(self).next_transaction == (if result is Ok {
                    at_least_one(old(self).next_transaction.wrapping_add(1))
                } else {
                    old(self).next_transaction
                })
            },
    {
        let now: u64 = match self.monotonic_tick() {
            Ok(now) => now,
            Err(fault) => {
                return Err(fault);
            },
        };
        let isolated = self.parties.isolate(fingerprint, descriptor);
        let isolation = match isolated {
            Ok(isolation) => isolation,
            Err(fault) => {
                return Err(fault);
            },
        };
        if !isolation.valid() {
            return Err(
                BackendFault::new(FaultCode::TransactionRejected, false, isolation.token),
            );
        }
        assert(self.wf() ==> super::parties::serves_strategy(
            self.parties.brokers@,
            descriptor.strategy,
        ));
        let place: usize = match self.broker(descriptor.strategy) {
            Ok(place) => place,
            Err(fault) => {
                return Err(fault);
            },
        };
        let reply = self.parties.begin(place, fingerprint, descriptor, isolation);
        let fault = match reply {
            Ok(transaction) => {
                if transaction.valid() {
                    let sequence: u64 = self.next_transaction;
                    self.next_transaction = at_least_one(sequence.wrapping_add(1));
                    let token: u64 = at_least_one(
                        mix(
                            self.secret,
                            sequence ^ fingerprint.evidence_root ^ decision.decision_root,
                        ),
                    );
                    return Ok(
                        ProbeTransaction {
                            token,
                            fingerprint_root: fingerprint.evidence_root,
                            strategy: descriptor.strategy,
                            started_tick: now,
                            deadline_tick: now.saturating_add(
                                descriptor.program.maximum_total_ticks,
                            ).saturating_add(descriptor.activation_budget_ticks).saturating_add(
                                descriptor.health_budget_ticks,
                            ),
                            evidence_mask: 0,
                            observation_root: mix(decision.decision_root, transaction.root),
                            firmware_preserved: isolation.firmware_preserved,
                            backend_state: [
                                isolation.token,
                                isolation.domain,
                                isolation.root,
                                transaction.token,
                                transaction.state[0],
                                transaction.state[1],
                                transaction.state[2],
                                transaction.state[3],
                            ],
                        },
                    );
                }
                BackendFault::new(FaultCode::TransactionRejected, false, transaction.token)
            },
            Err(fault) => fault,
        };
        let undone = self.parties.rollback_isolation(
            isolation,
            DispatchStage::BeginTransaction,
            fault,
        );
        Err(fault)
    }

    fn probe_transaction(
        &mut self,
        transaction: &mut ProbeTransaction,
        fingerprint: &GpuFingerprint,
        descriptor: &ShimDescriptor,
        step: ProbeStep,
        attempt: u8,
    ) -> (result: Result<ProbeObservation, BackendFault>)
        ensures
            final(self).asked == old(self).asked,
            old(self).wf() ==> {
                &&& final(self).wf()
                &&& final(self).secret == old(self).secret
                &&& final(self).next_transaction == old(self).next_transaction
                &&& final(self).parties.follows(old(self).parties)
                &&& clock_at(final(self).log(), old(self).log().len() as int) matches Some(now)
                    && final(self).last_tick == ticked(old(self).last_tick, now)
                &&& probe_run(
                    old(self).last_tick,
                    *old(transaction),
                    *fingerprint,
                    *descriptor,
                    step,
                    attempt,
                    final(self).log(),
                    old(self).log().len() as int,
                ) == Some((result, *final(transaction), final(self).log().len() as int))
            },
    {
        let now: u64 = match self.monotonic_tick() {
            Ok(now) => now,
            Err(fault) => {
                return Err(fault);
            },
        };
        if now > transaction.deadline_tick {
            return Err(
                BackendFault::new(FaultCode::ProbeTimeout, false, transaction.deadline_tick),
            );
        }
        let isolation = decode_isolation(transaction);
        if !isolation.valid() {
            return Err(
                BackendFault::new(FaultCode::TransactionRejected, false, isolation.token),
            );
        }
        assert(self.wf() ==> super::parties::serves_strategy(
            self.parties.brokers@,
            descriptor.strategy,
        ));
        let place: usize = match self.broker(descriptor.strategy) {
            Ok(place) => place,
            Err(fault) => {
                return Err(fault);
            },
        };
        let held = decode_broker(transaction);
        let reply = self.parties.probe(place, held, fingerprint, descriptor, step, attempt);
        match reply.1 {
            Ok(observation) => {
                encode_broker(transaction, reply.0);
                Ok(observation)
            },
            Err(fault) => Err(fault),
        }
    }

    fn activate_transaction(
        &mut self,
        transaction: &mut ProbeTransaction,
        fingerprint: &GpuFingerprint,
        descriptor: &ShimDescriptor,
    ) -> (result: Result<ActivationReceipt, BackendFault>)
        ensures
            final(self).asked == old(self).asked,
            old(self).wf() ==> {
                &&& final(self).wf()
                &&& final(self).secret == old(self).secret
                &&& final(self).next_transaction == old(self).next_transaction
                &&& final(self).parties.follows(old(self).parties)
                &&& clock_at(final(self).log(), old(self).log().len() as int) matches Some(now)
                    && final(self).last_tick == ticked(old(self).last_tick, now)
                &&& activate_run(
                    old(self).last_tick,
                    *old(transaction),
                    *fingerprint,
                    *descriptor,
                    final(self).log(),
                    old(self).log().len() as int,
                ) == Some((result, *final(transaction), final(self).log().len() as int))
            },
    {
        match self.monotonic_tick() {
            Ok(_) => {},
            Err(fault) => {
                return Err(fault);
            },
        }
        let isolation = decode_isolation(transaction);
        assert(self.wf() ==> super::parties::serves_strategy(
            self.parties.brokers@,
            descriptor.strategy,
        ));
        let place: usize = match self.broker(descriptor.strategy) {
            Ok(place) => place,
            Err(fault) => {
                return Err(fault);
            },
        };
        let held = decode_broker(transaction);
        let reply = self.parties.activate(place, held, fingerprint, descriptor, isolation);
        match reply.1 {
            Ok(receipt) => {
                encode_broker(transaction, reply.0);
                Ok(receipt)
            },
            Err(fault) => Err(fault),
        }
    }

    fn check_transaction(
        &mut self,
        transaction: &mut ProbeTransaction,
        activation: &ActivationReceipt,
        descriptor: &ShimDescriptor,
    ) -> (result: Result<HealthReceipt, BackendFault>)
        ensures
            final(self).asked == old(self).asked,
            old(self).wf() ==> {
                &&& final(self).wf()
                &&& final(self).secret == old(self).secret
                &&& final(self).next_transaction == old(self).next_transaction
                &&& final(self).parties.follows(old(self).parties)
                &&& clock_at(final(self).log(), old(self).log().len() as int) matches Some(now)
                    && final(self).last_tick == ticked(old(self).last_tick, now)
                &&& health_run(
                    old(self).last_tick,
                    *old(transaction),
                    *activation,
                    *descriptor,
                    final(self).log(),
                    old(self).log().len() as int,
                ) == Some((result, *final(transaction), final(self).log().len() as int))
            },
    {
        match self.monotonic_tick() {
            Ok(_) => {},
            Err(fault) => {
                return Err(fault);
            },
        }
        assert(self.wf() ==> super::parties::serves_strategy(
            self.parties.brokers@,
            descriptor.strategy,
        ));
        let place: usize = match self.broker(descriptor.strategy) {
            Ok(place) => place,
            Err(fault) => {
                return Err(fault);
            },
        };
        let held = decode_broker(transaction);
        let reply = self.parties.health(place, held, activation, descriptor);
        match reply.1 {
            Ok(receipt) => {
                encode_broker(transaction, reply.0);
                Ok(receipt)
            },
            Err(fault) => Err(fault),
        }
    }

    fn commit_transaction(
        &mut self,
        transaction: &mut ProbeTransaction,
        activation: &ActivationReceipt,
        health: &HealthReceipt,
        decision: &OracleDecision,
    ) -> (result: Result<DriverLease, BackendFault>)
        ensures
            final(self).asked == old(self).asked,
            old(self).wf() ==> {
                &&& final(self).wf()
                &&& final(self).secret == old(self).secret
                &&& final(self).next_transaction == old(self).next_transaction
                &&& final(self).parties.follows(old(self).parties)
                &&& clock_at(final(self).log(), old(self).log().len() as int) matches Some(now)
                    && final(self).last_tick == ticked(old(self).last_tick, now)
                &&& commit_run(
                    old(self).last_tick,
                    *old(transaction),
                    *activation,
                    *health,
                    *decision,
                    final(self).log(),
                    old(self).log().len() as int,
                ) == Some((result, *final(transaction), final(self).log().len() as int))
            },
    {
        let now: u64 = match self.monotonic_tick() {
            Ok(now) => now,
            Err(fault) => {
                return Err(fault);
            },
        };
        let isolation = decode_isolation(transaction);
        assert(self.wf() ==> super::parties::serves_strategy(
            self.parties.brokers@,
            transaction.strategy,
        ));
        let place: usize = match self.broker(transaction.strategy) {
            Ok(place) => place,
            Err(fault) => {
                return Err(fault);
            },
        };
        let held = decode_broker(transaction);
        let reply = self.parties.commit(place, held, activation, health, decision);
        let granted = match reply.1 {
            Ok(granted) => granted,
            Err(fault) => {
                return Err(fault);
            },
        };
        encode_broker(transaction, reply.0);
        if granted.0 == 0 || granted.1 == 0 {
            return Err(BackendFault::new(FaultCode::CommitFault, false, granted.0));
        }
        let kept = self.parties.commit_isolation(isolation);
        match kept {
            Ok(()) => Ok(
                DriverLease {
                    handle: granted.0,
                    generation: granted.1,
                    strategy: transaction.strategy,
                    fingerprint_root: transaction.fingerprint_root,
                    decision_root: decision.decision_root,
                    activation_root: mix(
                        activation.transport_root,
                        activation.activation_epoch,
                    ),
                    health_root: health.root,
                    framebuffer_object: activation.framebuffer_object,
                    committed_tick: at_least_one(now),
                },
            ),
            Err(fault) => Err(fault),
        }
    }

    fn rollback_transaction(
        &mut self,
        transaction: &mut ProbeTransaction,
        stage: DispatchStage,
        fault: BackendFault,
    ) -> (result: Result<(), BackendFault>)
        ensures
            final(self).asked == old(self).asked,
            old(self).wf() ==> {
                &&& final(self).wf()
                &&& final(self).secret == old(self).secret
                &&& final(self).next_transaction == old(self).next_transaction
                &&& final(self).last_tick == old(self).last_tick
                &&& final(self).parties.follows(old(self).parties)
                &&& rollback_run(
                    *old(transaction),
                    stage,
                    fault,
                    final(self).log(),
                    old(self).log().len() as int,
                ) == Some((result, *final(transaction), final(self).log().len() as int))
            },
    {
        let isolation = decode_isolation(transaction);
        assert(self.wf() ==> super::parties::serves_strategy(
            self.parties.brokers@,
            transaction.strategy,
        ));
        let place: usize = match self.broker(transaction.strategy) {
            Ok(place) => place,
            Err(missing) => {
                return Err(missing);
            },
        };
        let held = decode_broker(transaction);
        let released = self.parties.rollback(place, held, stage, fault);
        let undone = self.parties.rollback_isolation(isolation, stage, fault);
        encode_broker(transaction, released.0);
        match released.1 {
            Ok(()) => undone,
            Err(error) => Err(error),
        }
    }
}

impl<K: DriverNetClock, I: DeviceIsolationBroker, S: StrategyBroker> DriverNetBackend
    for BlackLabDriverPlatform<K, I, S> {
    open spec fn history(&self) -> Seq<BackendEvent> {
        self.asked@
    }

    fn now_tick(&mut self) -> (tick: u64)
        ensures
            final(self).parties.follows(old(self).parties),
            final(self).secret == old(self).secret,
            final(self).next_transaction == old(self).next_transaction,
            final(self).last_tick == old(self).last_tick,
            final(self).log() == old(self).log().push(PlatformEvent::Clock(tick)),
    {
        let tick: u64 = self.parties.now_tick();
        proof {
            self.asked@ = self.asked@.push(BackendEvent::Tick(tick));
        }
        tick
    }

    fn begin(
        &mut self,
        fingerprint: &GpuFingerprint,
        descriptor: &ShimDescriptor,
        decision: &OracleDecision,
    ) -> (result: Result<ProbeTransaction, BackendFault>)
        ensures
            old(self).wf() ==> {
                &&& final(self).wf()
                &&& final(self).secret == old(self).secret
                &&& final(self).parties.follows(old(self).parties)
                &&& clock_at(final(self).log(), old(self).log().len() as int) matches Some(now)
                    && final(self).last_tick == ticked(old(self).last_tick, now)
                &&& begin_run(
                    old(self).last_tick,
                    at_least_one(
                        crate::seal::mix_of(
                            old(self).secret,
                            old(self).next_transaction ^ fingerprint.evidence_root
                                ^ decision.decision_root,
                        ),
                    ),
                    *fingerprint,
                    *descriptor,
                    *decision,
                    final(self).log(),
                    old(self).log().len() as int,
                ) == Some((result, final(self).log().len() as int))
                &&& final(self).next_transaction == (if result is Ok {
                    at_least_one(old(self).next_transaction.wrapping_add(1))
                } else {
                    old(self).next_transaction
                })
            },
    {
        let result = self.begin_transaction(fingerprint, descriptor, decision);
        proof {
            self.asked@ = self.asked@.push(
                BackendEvent::Begin {
                    fingerprint: *fingerprint,
                    descriptor: *descriptor,
                    decision: *decision,
                    reply: result,
                },
        );
        }
        result
    }

    fn probe_step(
        &mut self,
        transaction: &mut ProbeTransaction,
        fingerprint: &GpuFingerprint,
        descriptor: &ShimDescriptor,
        step: ProbeStep,
        attempt: u8,
    ) -> (result: Result<ProbeObservation, BackendFault>)
        ensures
            old(self).wf() ==> {
                &&& final(self).wf()
                &&& final(self).secret == old(self).secret
                &&& final(self).next_transaction == old(self).next_transaction
                &&& final(self).parties.follows(old(self).parties)
                &&& clock_at(final(self).log(), old(self).log().len() as int) matches Some(now)
                    && final(self).last_tick == ticked(old(self).last_tick, now)
                &&& probe_run(
                    old(self).last_tick,
                    *old(transaction),
                    *fingerprint,
                    *descriptor,
                    step,
                    attempt,
                    final(self).log(),
                    old(self).log().len() as int,
                ) == Some((result, *final(transaction), final(self).log().len() as int))
            },
    {
        let ghost before = *transaction;
        let result = self.probe_transaction(transaction, fingerprint, descriptor, step, attempt);
        proof {
            self.asked@ = self.asked@.push(
                BackendEvent::Probe {
                    before,
                    fingerprint: *fingerprint,
                    descriptor: *descriptor,
                    step,
                    attempt,
                    after: *transaction,
                    reply: result,
                },
        );
        }
        result
    }

    fn activate(
        &mut self,
        transaction: &mut ProbeTransaction,
        fingerprint: &GpuFingerprint,
        descriptor: &ShimDescriptor,
    ) -> (result: Result<ActivationReceipt, BackendFault>)
        ensures
            old(self).wf() ==> {
                &&& final(self).wf()
                &&& final(self).secret == old(self).secret
                &&& final(self).next_transaction == old(self).next_transaction
                &&& final(self).parties.follows(old(self).parties)
                &&& clock_at(final(self).log(), old(self).log().len() as int) matches Some(now)
                    && final(self).last_tick == ticked(old(self).last_tick, now)
                &&& activate_run(
                    old(self).last_tick,
                    *old(transaction),
                    *fingerprint,
                    *descriptor,
                    final(self).log(),
                    old(self).log().len() as int,
                ) == Some((result, *final(transaction), final(self).log().len() as int))
            },
    {
        let ghost before = *transaction;
        let result = self.activate_transaction(transaction, fingerprint, descriptor);
        proof {
            self.asked@ = self.asked@.push(
                BackendEvent::Activate {
                    before,
                    fingerprint: *fingerprint,
                    descriptor: *descriptor,
                    after: *transaction,
                    reply: result,
                },
        );
        }
        result
    }

    fn health_check(
        &mut self,
        transaction: &mut ProbeTransaction,
        activation: &ActivationReceipt,
        descriptor: &ShimDescriptor,
    ) -> (result: Result<HealthReceipt, BackendFault>)
        ensures
            old(self).wf() ==> {
                &&& final(self).wf()
                &&& final(self).secret == old(self).secret
                &&& final(self).next_transaction == old(self).next_transaction
                &&& final(self).parties.follows(old(self).parties)
                &&& clock_at(final(self).log(), old(self).log().len() as int) matches Some(now)
                    && final(self).last_tick == ticked(old(self).last_tick, now)
                &&& health_run(
                    old(self).last_tick,
                    *old(transaction),
                    *activation,
                    *descriptor,
                    final(self).log(),
                    old(self).log().len() as int,
                ) == Some((result, *final(transaction), final(self).log().len() as int))
            },
    {
        let ghost before = *transaction;
        let result = self.check_transaction(transaction, activation, descriptor);
        proof {
            self.asked@ = self.asked@.push(
                BackendEvent::Health {
                    before,
                    activation: *activation,
                    descriptor: *descriptor,
                    after: *transaction,
                    reply: result,
                },
        );
        }
        result
    }

    fn commit(
        &mut self,
        transaction: &mut ProbeTransaction,
        activation: &ActivationReceipt,
        health: &HealthReceipt,
        decision: &OracleDecision,
    ) -> (result: Result<DriverLease, BackendFault>)
        ensures
            old(self).wf() ==> {
                &&& final(self).wf()
                &&& final(self).secret == old(self).secret
                &&& final(self).next_transaction == old(self).next_transaction
                &&& final(self).parties.follows(old(self).parties)
                &&& clock_at(final(self).log(), old(self).log().len() as int) matches Some(now)
                    && final(self).last_tick == ticked(old(self).last_tick, now)
                &&& commit_run(
                    old(self).last_tick,
                    *old(transaction),
                    *activation,
                    *health,
                    *decision,
                    final(self).log(),
                    old(self).log().len() as int,
                ) == Some((result, *final(transaction), final(self).log().len() as int))
            },
    {
        let ghost before = *transaction;
        let result = self.commit_transaction(transaction, activation, health, decision);
        proof {
            self.asked@ = self.asked@.push(
                BackendEvent::Commit {
                    before,
                    activation: *activation,
                    health: *health,
                    decision: *decision,
                    after: *transaction,
                    reply: result,
                },
        );
        }
        result
    }

    fn rollback(
        &mut self,
        transaction: &mut ProbeTransaction,
        stage: DispatchStage,
        fault: BackendFault,
    ) -> (result: Result<(), BackendFault>)
        ensures
            old(self).wf() ==> {
                &&& final(self).wf()
                &&& final(self).secret == old(self).secret
                &&& final(self).next_transaction == old(self).next_transaction
                &&& final(self).last_tick == old(self).last_tick
                &&& final(self).parties.follows(old(self).parties)
                &&& rollback_run(
                    *old(transaction),
                    stage,
                    fault,
                    final(self).log(),
                    old(self).log().len() as int,
                ) == Some((result, *final(transaction), final(self).log().len() as int))
            },
    {
        let ghost before = *transaction;
        let result = self.rollback_transaction(transaction, stage, fault);
        proof {
            self.asked@ = self.asked@.push(
                BackendEvent::Rollback {
                    before,
                    stage,
                    fault,
                    after: *transaction,
                    reply: result,
                },
        );
        }
        result
    }
}

/// Putting a broker's transaction back keeps the isolation, and what comes out
/// again is the same up to the sealed root.
pub proof fn law_broker_state_survives_a_transaction(
    transaction: ProbeTransaction,
    broker: BrokerTransaction,
)
    ensures
        decode_isolation(&encoded_broker(transaction, broker)) == decode_isolation(&transaction),
        decode_broker(&encoded_broker(transaction, broker)).token == broker.token,
        forall|i: int|
            0 <= i < 4 ==> #[trigger] decode_broker(
                &encoded_broker(transaction, broker),
            ).state[i] == broker.state[i],
{
}

/// A broker that refuses to begin leaves no isolation behind: the isolation
/// that was taken for it is undone with the same fault.
pub proof fn law_a_refused_begin_undoes_the_isolation(
    last_tick: u64,
    token: u64,
    fingerprint: GpuFingerprint,
    descriptor: ShimDescriptor,
    decision: OracleDecision,
    log: Seq<PlatformEvent>,
    at: int,
    fault: BackendFault,
    end: int,
)
    requires
        begin_run(last_tick, token, fingerprint, descriptor, decision, log, at) == Some(
            (Err::<ProbeTransaction, _>(fault), end),
        ),
        end > at + 2,
    ensures
        log[end - 1] is IsolationRollback,
        log[end - 1]->IsolationRollback_fault == fault,
        log[end - 1]->IsolationRollback_receipt == log[at + 1]->Isolate_reply->Ok_0,
{
}

/// A rollback undoes the broker and the isolation, whether or not either fails.
pub proof fn law_a_rollback_undoes_both_sides(
    transaction: ProbeTransaction,
    stage: DispatchStage,
    fault: BackendFault,
    log: Seq<PlatformEvent>,
    at: int,
)
    requires
        rollback_run(transaction, stage, fault, log, at) is Some,
    ensures
        log[at] is Rollback,
        log[at + 1] is IsolationRollback,
        log[at + 1]->IsolationRollback_receipt == decode_isolation(&transaction),
{
}

/// What a party was asked, where a transcript grew by a few entries.
proof fn lemma_told_few(
    log: Seq<PlatformEvent>,
    earlier: Seq<PlatformEvent>,
    history: Seq<PlatformEvent>,
    before: Seq<PlatformEvent>,
    of: spec_fn(PlatformEvent) -> bool,
)
    requires
        crate::trace::told(log, earlier, history, before, of),
        log.len() <= earlier.len() + 4,
    ensures
        history == before + few_of(log, earlier.len() as int, of),
{
    reveal_with_fuel(crate::trace::part, 5);
    let new = log.skip(earlier.len() as int);
    let n = new.len();
    assert(forall|i: int| 0 <= i < n ==> #[trigger] new[i] == log[earlier.len() + i]);
    assert(n > 0 ==> new.drop_last() =~= new.take(n - 1));
    assert(n > 1 ==> new.take(n - 1).drop_last() =~= new.take(n - 2));
    assert(n > 2 ==> new.take(n - 2).drop_last() =~= new.take(n - 3));
    assert(n > 3 ==> new.take(n - 3).drop_last() =~= new.take(n - 4));
    assert(crate::trace::part(new, of) =~= few_of(log, earlier.len() as int, of));
}

/// The entries of a party among the at most four from a place on.
spec fn few_of(
    log: Seq<PlatformEvent>,
    from: int,
    of: spec_fn(PlatformEvent) -> bool,
) -> Seq<PlatformEvent> {
    one_of(log, from, of) + one_of(log, from + 1, of) + one_of(log, from + 2, of) + one_of(
        log,
        from + 3,
        of,
    )
}

spec fn one_of(
    log: Seq<PlatformEvent>,
    at: int,
    of: spec_fn(PlatformEvent) -> bool,
) -> Seq<PlatformEvent> {
    if 0 <= at < log.len() && of(log[at]) {
        seq![log[at]]
    } else {
        Seq::empty()
    }
}

/// What a transaction's parties were asked, party by party, where the transcript grew by
/// at most four entries.
proof fn lemma_asked_few<
    K: DriverNetClock,
    I: DeviceIsolationBroker,
    S: StrategyBroker,
>(
    parties: PlatformParties<K, I, S>,
    earlier: PlatformParties<K, I, S>,
)
    requires
        parties.follows(earlier),
        parties.log().len() <= earlier.log().len() + 4,
    ensures
        parties.clock.history() == earlier.clock.history() + few_of(
            parties.log(),
            earlier.log().len() as int,
            super::parties::of_clock(),
        ),
        parties.isolation.history() == earlier.isolation.history() + few_of(
            parties.log(),
            earlier.log().len() as int,
            super::parties::of_isolation(),
        ),
        parties.brokers@.len() == earlier.brokers@.len(),
        forall|i: int|
            0 <= i < parties.brokers@.len() ==> (#[trigger] parties.brokers@[i]).history()
                == earlier.brokers@[i].history() + few_of(
                parties.log(),
                earlier.log().len() as int,
                super::parties::of_broker(earlier.brokers@[i].serves()),
            ),
{
    reveal(PlatformParties::follows);
    lemma_told_few(
        parties.log(),
        earlier.log(),
        parties.clock.history(),
        earlier.clock.history(),
        super::parties::of_clock(),
    );
    lemma_told_few(
        parties.log(),
        earlier.log(),
        parties.isolation.history(),
        earlier.isolation.history(),
        super::parties::of_isolation(),
    );
    assert forall|i: int| 0 <= i < parties.brokers@.len() implies (
    #[trigger] parties.brokers@[i]).history() == earlier.brokers@[i].history() + few_of(
        parties.log(),
        earlier.log().len() as int,
        super::parties::of_broker(earlier.brokers@[i].serves()),
    ) by {
        lemma_told_few(
            parties.log(),
            earlier.log(),
            parties.brokers@[i].history(),
            earlier.brokers@[i].history(),
            super::parties::of_broker(earlier.brokers@[i].serves()),
        );
    }
}

/// A begin that the broker refuses asks the isolation exactly twice: to take the device,
/// and to give it back with the same fault. No other broker hears of it.
pub proof fn law_a_refused_begin_is_undone_once<
    K: DriverNetClock,
    I: DeviceIsolationBroker,
    S: StrategyBroker,
>(
    earlier: PlatformParties<K, I, S>,
    parties: PlatformParties<K, I, S>,
    last_tick: u64,
    token: u64,
    fingerprint: GpuFingerprint,
    descriptor: ShimDescriptor,
    decision: OracleDecision,
    fault: BackendFault,
)
    requires
        parties.follows(earlier),
        begin_run(
            last_tick,
            token,
            fingerprint,
            descriptor,
            decision,
            parties.log(),
            earlier.log().len() as int,
        ) == Some((Err::<ProbeTransaction, _>(fault), parties.log().len() as int)),
        parties.log().len() > earlier.log().len() + 2,
    ensures
        exists|isolation: IsolationReceipt, reply: Result<(), BackendFault>|
            parties.isolation.history() == #[trigger] undone_begin(
                earlier.isolation.history(),
                fingerprint,
                descriptor,
                isolation,
                fault,
                reply,
            ),
        forall|i: int|
            0 <= i < parties.brokers@.len() && earlier.brokers@[i].serves()
                != descriptor.strategy ==> (#[trigger] parties.brokers@[i]).history()
                == earlier.brokers@[i].history(),
{
    lemma_asked_few(parties, earlier);
    let at = earlier.log().len() as int;
    let log = parties.log();
    assert(parties.isolation.history() =~= undone_begin(
        earlier.isolation.history(),
        fingerprint,
        descriptor,
        log[at + 1]->Isolate_reply->Ok_0,
        fault,
        log[at + 3]->IsolationRollback_reply,
    ));
    assert forall|i: int|
        0 <= i < parties.brokers@.len() && earlier.brokers@[i].serves()
            != descriptor.strategy implies (#[trigger] parties.brokers@[i]).history()
        == earlier.brokers@[i].history() by {
        assert(parties.brokers@[i].history() =~= earlier.brokers@[i].history());
    }
}

/// What an isolation was asked once a begin was refused and undone.
pub open spec fn undone_begin(
    before: Seq<PlatformEvent>,
    fingerprint: GpuFingerprint,
    descriptor: ShimDescriptor,
    isolation: IsolationReceipt,
    fault: BackendFault,
    reply: Result<(), BackendFault>,
) -> Seq<PlatformEvent> {
    before.push(
        PlatformEvent::Isolate { fingerprint, descriptor, reply: Ok(isolation) },
    ).push(
        PlatformEvent::IsolationRollback {
            receipt: isolation,
            stage: DispatchStage::BeginTransaction,
            fault,
            reply,
        },
    )
}

/// A rollback asks the transaction's broker exactly once and the isolation exactly once,
/// each with the stage and the fault, and nobody else.
pub proof fn law_a_rollback_asks_both_sides_once<
    K: DriverNetClock,
    I: DeviceIsolationBroker,
    S: StrategyBroker,
>(
    earlier: PlatformParties<K, I, S>,
    parties: PlatformParties<K, I, S>,
    transaction: ProbeTransaction,
    stage: DispatchStage,
    fault: BackendFault,
    result: Result<(), BackendFault>,
    after: ProbeTransaction,
)
    requires
        parties.follows(earlier),
        rollback_run(
            transaction,
            stage,
            fault,
            parties.log(),
            earlier.log().len() as int,
        ) == Some((result, after, parties.log().len() as int)),
    ensures
        parties.clock.history() == earlier.clock.history(),
        exists|reply: Result<(), BackendFault>|
            parties.isolation.history() == #[trigger] earlier.isolation.history().push(
                PlatformEvent::IsolationRollback {
                    receipt: decode_isolation(&transaction),
                    stage,
                    fault,
                    reply,
                },
            ),
        exists|reply: (BrokerTransaction, Result<(), BackendFault>)|
            #![trigger encoded_broker(transaction, reply.0)]
            forall|i: int|
                0 <= i < parties.brokers@.len() ==> (#[trigger] parties.brokers@[i]).history()
                    == (if earlier.brokers@[i].serves() == transaction.strategy {
                    earlier.brokers@[i].history().push(
                        PlatformEvent::Rollback {
                            strategy: transaction.strategy,
                            transaction: decode_broker(&transaction),
                            stage,
                            fault,
                            reply,
                        },
                    )
                } else {
                    earlier.brokers@[i].history()
                }),
{
    lemma_asked_few(parties, earlier);
    let at = earlier.log().len() as int;
    let log = parties.log();
    assert(parties.clock.history() =~= earlier.clock.history());
    assert(parties.isolation.history() =~= earlier.isolation.history().push(log[at + 1]));
    let reply = log[at]->Rollback_reply;
    assert(encoded_broker(transaction, reply.0) == after);
    assert forall|i: int| 0 <= i < parties.brokers@.len() implies (
    #[trigger] parties.brokers@[i]).history() == (if earlier.brokers@[i].serves()
        == transaction.strategy {
        earlier.brokers@[i].history().push(log[at])
    } else {
        earlier.brokers@[i].history()
    }) by {
        if earlier.brokers@[i].serves() == transaction.strategy {
            assert(parties.brokers@[i].history() =~= earlier.brokers@[i].history().push(log[at]));
        } else {
            assert(parties.brokers@[i].history() =~= earlier.brokers@[i].history());
        }
    }
}

/// A commit that the broker refuses, or answers with an empty grant, leaves the isolation
/// unasked.
pub proof fn law_a_refused_commit_leaves_the_isolation_unasked<
    K: DriverNetClock,
    I: DeviceIsolationBroker,
    S: StrategyBroker,
>(
    earlier: PlatformParties<K, I, S>,
    parties: PlatformParties<K, I, S>,
    last_tick: u64,
    transaction: ProbeTransaction,
    activation: ActivationReceipt,
    health: HealthReceipt,
    decision: OracleDecision,
    fault: BackendFault,
    after: ProbeTransaction,
)
    requires
        parties.follows(earlier),
        commit_run(
            last_tick,
            transaction,
            activation,
            health,
            decision,
            parties.log(),
            earlier.log().len() as int,
        ) == Some((Err::<DriverLease, _>(fault), after, parties.log().len() as int)),
        parties.log().len() <= earlier.log().len() + 2,
    ensures
        parties.isolation.history() == earlier.isolation.history(),
{
    lemma_asked_few(parties, earlier);
    assert(parties.isolation.history() =~= earlier.isolation.history());
}

} // verus!
