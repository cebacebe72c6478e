//! Transactional activation of ranked driver strategies.

use super::fingerprint::GpuFingerprint;
use super::model::{DriverStrategy, ModelExpectation, OracleDecision, RankedCandidate};
use super::registry::{
    ProbeSemantic, ProbeStep, RegistryError, ShimDescriptor, ShimRegistry, MAXIMUM_SHIMS,
    SHIM_FLAG_PRESERVE_FIRMWARE_DISPLAY,
};
use crate::seal::{flag, mix, Sealer};
use vstd::prelude::*;

verus! {

pub const MAXIMUM_ATTEMPTS: usize = MAXIMUM_SHIMS;

pub const MAXIMUM_PROBE_OBSERVATIONS: usize = 16;

#[derive(Clone, Copy, Debug, PartialEq, Eq, Structural)]
pub enum DispatchStage {
    CandidateGate,
    BeginTransaction,
    Probe,
    Activate,
    HealthCheck,
    Commit,
    Rollback,
    Complete,
}

impl DispatchStage {
    #[verifier::allow_in_spec]
    pub fn code(self) -> u8
        returns
            (match self {
                DispatchStage::CandidateGate => 1u8,
                DispatchStage::BeginTransaction => 2u8,
                DispatchStage::Probe => 3u8,
                DispatchStage::Activate => 4u8,
                DispatchStage::HealthCheck => 5u8,
                DispatchStage::Commit => 6u8,
                DispatchStage::Rollback => 7u8,
                DispatchStage::Complete => 8u8,
            }),
    {
        match self {
            DispatchStage::CandidateGate => 1,
            DispatchStage::BeginTransaction => 2,
            DispatchStage::Probe => 3,
            DispatchStage::Activate => 4,
            DispatchStage::HealthCheck => 5,
            DispatchStage::Commit => 6,
            DispatchStage::Rollback => 7,
            DispatchStage::Complete => 8,
        }
    }
}

#[derive(Clone, Copy, Debug, PartialEq, Eq, Structural)]
pub enum AttemptOutcome {
    Skipped,
    ProbeRejected,
    ActivationRejected,
    HealthRejected,
    CommitRejected,
    RolledBack,
    Committed,
}

impl AttemptOutcome {
    #[verifier::allow_in_spec]
    pub fn code(self) -> u8
        returns
            (match self {
                AttemptOutcome::Skipped => 1u8,
                AttemptOutcome::ProbeRejected => 2u8,
                AttemptOutcome::ActivationRejected => 3u8,
                AttemptOutcome::HealthRejected => 4u8,
                AttemptOutcome::CommitRejected => 5u8,
                AttemptOutcome::RolledBack => 6u8,
                AttemptOutcome::Committed => 7u8,
            }),
    {
        match self {
            AttemptOutcome::Skipped => 1,
            AttemptOutcome::ProbeRejected => 2,
            AttemptOutcome::ActivationRejected => 3,
            AttemptOutcome::HealthRejected => 4,
            AttemptOutcome::CommitRejected => 5,
            AttemptOutcome::RolledBack => 6,
            AttemptOutcome::Committed => 7,
        }
    }
}

#[derive(Clone, Copy, Debug, PartialEq, Eq, Structural)]
pub enum FaultCode {
    Clear,
    CandidateInadmissible,
    DescriptorRejected,
    TransactionRejected,
    ProbeTimeout,
    ProbeFault,
    MissingProbeEvidence,
    ActivationTimeout,
    ActivationFault,
    HealthTimeout,
    HealthFault,
    Unhealthy,
    CommitFault,
    RollbackFault,
    DecisionCorrupt,
    FingerprintMismatch,
    NoSafeStrategy,
    TimeRegression,
    RegistryFault,
}

impl FaultCode {
    #[verifier::allow_in_spec]
    pub fn code(self) -> u16
        returns
            (match self {
                FaultCode::Clear => 0u16,
                FaultCode::CandidateInadmissible => 1u16,
                FaultCode::DescriptorRejected => 2u16,
                FaultCode::TransactionRejected => 3u16,
                FaultCode::ProbeTimeout => 4u16,
                FaultCode::ProbeFault => 5u16,
                FaultCode::MissingProbeEvidence => 6u16,
                FaultCode::ActivationTimeout => 7u16,
                FaultCode::ActivationFault => 8u16,
                FaultCode::HealthTimeout => 9u16,
                FaultCode::HealthFault => 10u16,
                FaultCode::Unhealthy => 11u16,
                FaultCode::CommitFault => 12u16,
                FaultCode::RollbackFault => 13u16,
                FaultCode::DecisionCorrupt => 14u16,
                FaultCode::FingerprintMismatch => 15u16,
                FaultCode::NoSafeStrategy => 16u16,
                FaultCode::TimeRegression => 17u16,
                FaultCode::RegistryFault => 18u16,
            }),
    {
        match self {
            FaultCode::Clear => 0,
            FaultCode::CandidateInadmissible => 1,
            FaultCode::DescriptorRejected => 2,
            FaultCode::TransactionRejected => 3,
            FaultCode::ProbeTimeout => 4,
            FaultCode::ProbeFault => 5,
            FaultCode::MissingProbeEvidence => 6,
            FaultCode::ActivationTimeout => 7,
            FaultCode::ActivationFault => 8,
            FaultCode::HealthTimeout => 9,
            FaultCode::HealthFault => 10,
            FaultCode::Unhealthy => 11,
            FaultCode::CommitFault => 12,
            FaultCode::RollbackFault => 13,
            FaultCode::DecisionCorrupt => 14,
            FaultCode::FingerprintMismatch => 15,
            FaultCode::NoSafeStrategy => 16,
            FaultCode::TimeRegression => 17,
            FaultCode::RegistryFault => 18,
        }
    }
}

#[derive(Clone, Copy, Debug, PartialEq, Eq, Structural)]
pub struct BackendFault {
    pub code: FaultCode,
    pub retryable: bool,
    pub detail: u64,
}

impl BackendFault {
    #[verifier::allow_in_spec]
    pub fn new(code: FaultCode, retryable: bool, detail: u64) -> BackendFault
        returns
            (BackendFault { code, retryable, detail }),
    {
        BackendFault { code, retryable, detail }
    }
}

#[derive(Clone, Copy, Debug, PartialEq, Eq)]
pub struct ProbeObservation {
    pub semantic: ProbeSemantic,
    pub evidence_bit: u32,
    pub value: u64,
    pub tick: u64,
    pub root: u64,
}

#[derive(Clone, Copy, Debug, PartialEq, Eq)]
pub struct ProbeTransaction {
    pub token: u64,
    pub fingerprint_root: u64,
    pub strategy: DriverStrategy,
    pub started_tick: u64,
    pub deadline_tick: u64,
    pub evidence_mask: u32,
    pub observation_root: u64,
    pub firmware_preserved: bool,
    pub backend_state: [u64; 8],
}

impl ProbeTransaction {
    #[verifier::allow_in_spec]
    pub fn valid(self) -> bool
        returns
            self.token != 0 && self.fingerprint_root != 0 && self.deadline_tick
                > self.started_tick,
    {
        self.token != 0 && self.fingerprint_root != 0 && self.deadline_tick > self.started_tick
    }
}

#[derive(Clone, Copy, Debug, PartialEq, Eq)]
pub struct ActivationReceipt {
    pub token: u64,
    pub strategy: DriverStrategy,
    pub activation_epoch: u64,
    pub transport_root: u64,
    pub framebuffer_object: u64,
    pub backend_state: [u64; 8],
}

impl ActivationReceipt {
    #[verifier::allow_in_spec]
    pub fn valid(self) -> bool
        returns
            self.token != 0 && self.activation_epoch != 0 && self.transport_root != 0,
    {
        self.token != 0 && self.activation_epoch != 0 && self.transport_root != 0
    }
}

#[derive(Clone, Copy, Debug, PartialEq, Eq)]
pub struct HealthReceipt {
    pub healthy: bool,
    pub tick: u64,
    pub heartbeat: u64,
    pub fault_mask: u64,
    pub root: u64,
}

#[derive(Clone, Copy, Debug, PartialEq, Eq)]
pub struct DriverLease {
    pub handle: u64,
    pub generation: u32,
    pub strategy: DriverStrategy,
    pub fingerprint_root: u64,
    pub decision_root: u64,
    pub activation_root: u64,
    pub health_root: u64,
    pub framebuffer_object: u64,
    pub committed_tick: u64,
}

impl DriverLease {
    #[verifier::allow_in_spec]
    pub fn valid(self) -> bool
        returns
            ({
                &&& self.handle != 0
                &&& self.generation != 0
                &&& self.fingerprint_root != 0
                &&& self.decision_root != 0
                &&& self.activation_root != 0
                &&& self.health_root != 0
                &&& self.committed_tick != 0
            }),
    {
        self.handle != 0 && self.generation != 0 && self.fingerprint_root != 0
            && self.decision_root != 0 && self.activation_root != 0 && self.health_root != 0
            && self.committed_tick != 0
    }
}

#[derive(Clone, Copy, Debug, PartialEq, Eq)]
pub struct AttemptRecord {
    pub strategy: DriverStrategy,
    pub stage: DispatchStage,
    pub outcome: AttemptOutcome,
    pub score: i64,
    pub confidence_q16: u16,
    pub started_tick: u64,
    pub ended_tick: u64,
    pub evidence_mask: u32,
    pub fault: FaultCode,
    pub detail: u64,
    pub root: u64,
}

impl AttemptRecord {
    /// The words that an attempt root seals.
    pub open spec fn words(self) -> Seq<u64> {
        seq![
            self.strategy.index() as u64,
            self.stage.code() as u64,
            self.outcome.code() as u64,
            self.score as u64,
            self.confidence_q16 as u64,
            self.started_tick,
            self.ended_tick,
            self.evidence_mask as u64,
            self.fault.code() as u64,
            self.detail,
        ]
    }

    /// The record with its root set.
    pub open spec fn sealed(self, secret: u64) -> AttemptRecord {
        AttemptRecord { root: crate::seal::seal_of(secret, self.words()), ..self }
    }
}

fn attempt_root(secret: u64, attempt: &AttemptRecord) -> (root: u64)
    ensures
        root == crate::seal::seal_of(secret, attempt.words()),
{
    Sealer::new(secret).word(attempt.strategy.index() as u64).word(
        attempt.stage.code() as u64,
    ).word(attempt.outcome.code() as u64).word(attempt.score as u64).word(
        attempt.confidence_q16 as u64,
    ).word(attempt.started_tick).word(attempt.ended_tick).word(
        attempt.evidence_mask as u64,
    ).word(attempt.fault.code() as u64).word(attempt.detail).root()
}

pub fn seal_attempt(secret: u64, attempt: AttemptRecord) -> (sealed: AttemptRecord)
    ensures
        sealed == attempt.sealed(secret),
{
    AttemptRecord { root: attempt_root(secret, &attempt), ..attempt }
}

#[derive(Clone, Debug, PartialEq, Eq)]
pub struct DispatchResolution {
    pub fingerprint_root: u64,
    pub decision_root: u64,
    pub active_strategy: DriverStrategy,
    pub lease: DriverLease,
    pub attempts: Vec<AttemptRecord>,
    pub retained_firmware_display: bool,
    pub resolution_root: u64,
}

/// The words that a resolution root seals.
pub open spec fn resolution_words(
    fingerprint_root: u64,
    decision_root: u64,
    lease: DriverLease,
    active_strategy: DriverStrategy,
    attempts: Seq<AttemptRecord>,
    retained: bool,
) -> Seq<u64> {
    seq![
        fingerprint_root,
        decision_root,
        active_strategy.index() as u64,
        lease.handle,
        lease.generation as u64,
        lease.activation_root,
        lease.health_root,
        lease.framebuffer_object,
        lease.committed_tick,
        attempts.len() as u64,
        crate::seal::flag_word(retained),
    ] + attempts.map_values(|attempt: AttemptRecord| attempt.root)
}

impl DispatchResolution {
    pub open spec fn words(&self) -> Seq<u64> {
        resolution_words(
            self.fingerprint_root,
            self.decision_root,
            self.lease,
            self.active_strategy,
            self.attempts@,
            self.retained_firmware_display,
        )
    }

    /// Whether a resolution holds a valid lease and its own seal.
    pub open spec fn verified(&self, secret: u64) -> bool {
        &&& self.attempts@.len() <= MAXIMUM_ATTEMPTS
        &&& self.lease.valid()
        &&& self.active_strategy == self.lease.strategy
        &&& self.resolution_root == crate::seal::seal_of(secret, self.words())
    }

    pub fn attempts(&self) -> (attempts: &[AttemptRecord])
        ensures
            attempts@ == self.attempts@,
    {
        self.attempts.as_slice()
    }

    pub fn verify(&self, secret: u64) -> (verified: bool)
        ensures
            verified == self.verified(secret),
    {
        self.attempts.len() <= MAXIMUM_ATTEMPTS && self.lease.valid() && self.active_strategy
            == self.lease.strategy && self.resolution_root == resolution_root(secret, self)
    }
}

pub fn resolution_root(secret: u64, resolution: &DispatchResolution) -> (root: u64)
    ensures
        root == crate::seal::seal_of(secret, resolution.words()),
{
    let mut sealer = Sealer::new(secret).word(resolution.fingerprint_root).word(
        resolution.decision_root,
    ).word(resolution.active_strategy.index() as u64).word(resolution.lease.handle).word(
        resolution.lease.generation as u64,
    ).word(resolution.lease.activation_root).word(resolution.lease.health_root).word(
        resolution.lease.framebuffer_object,
    ).word(resolution.lease.committed_tick).word(resolution.attempts.len() as u64).word(
        flag(resolution.retained_firmware_display),
    );
    let ghost header = sealer.words();
    let ghost roots = resolution.attempts@.map_values(|attempt: AttemptRecord| attempt.root);
    let mut index: usize = 0;
    while index < resolution.attempts.len()
        invariant
            index <= resolution.attempts@.len(),
            sealer.seed() == secret,
            roots == resolution.attempts@.map_values(|attempt: AttemptRecord| attempt.root),
            sealer.words() =~= header + roots.take(index as int),
        decreases resolution.attempts@.len() - index,
    {
        sealer = sealer.word(resolution.attempts[index].root);
        index += 1;
    }
    assert(sealer.words() =~= resolution.words());
    sealer.root()
}

#[derive(Clone, Debug, PartialEq, Eq)]
pub enum DispatchError {
    CorruptDecision,
    FingerprintMismatch,
    Registry(RegistryError),
    TimeRegression,
    NoSafeStrategy { attempts: Vec<AttemptRecord> },
}

impl From<RegistryError> for DispatchError {
    fn from(error: RegistryError) -> (converted: Self) {
        DispatchError::Registry(error)
    }
}

impl vstd::std_specs::convert::FromSpecImpl<RegistryError> for DispatchError {
    open spec fn obeys_from_spec() -> bool {
        true
    }

    open spec fn from_spec(error: RegistryError) -> Self {
        DispatchError::Registry(error)
    }
}

/// The hardware side of activation. Nothing is promised of a reply: every
/// answer is checked before it is used.
pub trait DriverNetBackend {
    /// All that the backend was asked and answered.
    open spec fn history(&self) -> Seq<BackendEvent> {
        arbitrary()
    }

    fn now_tick(&mut self) -> (tick: u64)
        ensures
            final(self).history() == old(self).history().push(BackendEvent::Tick(tick)),
    ;

    fn begin(
        &mut self,
        fingerprint: &GpuFingerprint,
        descriptor: &ShimDescriptor,
        decision: &OracleDecision,
    ) -> (reply: Result<ProbeTransaction, BackendFault>)
        ensures
            final(self).history() == old(self).history().push(
                BackendEvent::Begin {
                    fingerprint: *fingerprint,
                    descriptor: *descriptor,
                    decision: *decision,
                    reply,
                },
            ),
    ;

    fn probe_step(
        &mut self,
        transaction: &mut ProbeTransaction,
        fingerprint: &GpuFingerprint,
        descriptor: &ShimDescriptor,
        step: ProbeStep,
        attempt: u8,
    ) -> (reply: Result<ProbeObservation, BackendFault>)
        ensures
            final(self).history() == old(self).history().push(
                BackendEvent::Probe {
                    before: *old(transaction),
                    fingerprint: *fingerprint,
                    descriptor: *descriptor,
                    step,
                    attempt,
                    after: *final(transaction),
                    reply,
                },
            ),
    ;

    fn activate(
        &mut self,
        transaction: &mut ProbeTransaction,
        fingerprint: &GpuFingerprint,
        descriptor: &ShimDescriptor,
    ) -> (reply: Result<ActivationReceipt, BackendFault>)
        ensures
            final(self).history() == old(self).history().push(
                BackendEvent::Activate {
                    before: *old(transaction),
                    fingerprint: *fingerprint,
                    descriptor: *descriptor,
                    after: *final(transaction),
                    reply,
                },
            ),
    ;

    fn health_check(
        &mut self,
        transaction: &mut ProbeTransaction,
        activation: &ActivationReceipt,
        descriptor: &ShimDescriptor,
    ) -> (reply: Result<HealthReceipt, BackendFault>)
        ensures
            final(self).history() == old(self).history().push(
                BackendEvent::Health {
                    before: *old(transaction),
                    activation: *activation,
                    descriptor: *descriptor,
                    after: *final(transaction),
                    reply,
                },
            ),
    ;

    fn commit(
        &mut self,
        transaction: &mut ProbeTransaction,
        activation: &ActivationReceipt,
        health: &HealthReceipt,
        decision: &OracleDecision,
    ) -> (reply: Result<DriverLease, BackendFault>)
        ensures
            final(self).history() == old(self).history().push(
                BackendEvent::Commit {
                    before: *old(transaction),
                    activation: *activation,
                    health: *health,
                    decision: *decision,
                    after: *final(transaction),
                    reply,
                },
            ),
    ;

    fn rollback(
        &mut self,
        transaction: &mut ProbeTransaction,
        stage: DispatchStage,
        fault: BackendFault,
    ) -> (reply: Result<(), BackendFault>)
        ensures
            final(self).history() == old(self).history().push(
                BackendEvent::Rollback {
                    before: *old(transaction),
                    stage,
                    fault,
                    after: *final(transaction),
                    reply,
                },
            ),
    ;
}

/// One exchange with the backend: what it was handed, what it made of the
/// transaction and what it answered.
pub enum BackendEvent {
    Tick(u64),
    Begin {
        fingerprint: GpuFingerprint,
        descriptor: ShimDescriptor,
        decision: OracleDecision,
        reply: Result<ProbeTransaction, BackendFault>,
    },
    Probe {
        before: ProbeTransaction,
        fingerprint: GpuFingerprint,
        descriptor: ShimDescriptor,
        step: ProbeStep,
        attempt: u8,
        after: ProbeTransaction,
        reply: Result<ProbeObservation, BackendFault>,
    },
    Activate {
        before: ProbeTransaction,
        fingerprint: GpuFingerprint,
        descriptor: ShimDescriptor,
        after: ProbeTransaction,
        reply: Result<ActivationReceipt, BackendFault>,
    },
    Health {
        before: ProbeTransaction,
        activation: ActivationReceipt,
        descriptor: ShimDescriptor,
        after: ProbeTransaction,
        reply: Result<HealthReceipt, BackendFault>,
    },
    Commit {
        before: ProbeTransaction,
        activation: ActivationReceipt,
        health: HealthReceipt,
        decision: OracleDecision,
        after: ProbeTransaction,
        reply: Result<DriverLease, BackendFault>,
    },
    Rollback {
        before: ProbeTransaction,
        stage: DispatchStage,
        fault: BackendFault,
        after: ProbeTransaction,
        reply: Result<(), BackendFault>,
    },
}

/// The backend of a dispatch. Its transcript is the history of the backend.
pub struct BackendTrace<B> {
    pub backend: B,
}

impl<B: DriverNetBackend> BackendTrace<B> {
    pub open spec fn log(&self) -> Seq<BackendEvent> {
        self.backend.history()
    }

    pub fn new(backend: B) -> (trace: Self)
        ensures
            trace.backend == backend,
    {
        BackendTrace { backend }
    }

    pub fn now_tick(&mut self) -> (tick: u64)
        ensures
            final(self).log() == old(self).log().push(BackendEvent::Tick(tick)),
    {
        let tick: u64 = self.backend.now_tick();
        tick
    }

    pub fn begin(
        &mut self,
        fingerprint: &GpuFingerprint,
        descriptor: &ShimDescriptor,
        decision: &OracleDecision,
    ) -> (reply: Result<ProbeTransaction, BackendFault>)
        ensures
            final(self).log() == old(self).log().push(
                BackendEvent::Begin {
                    fingerprint: *fingerprint,
                    descriptor: *descriptor,
                    decision: *decision,
                    reply,
                },
            ),
    {
        let reply = self.backend.begin(fingerprint, descriptor, decision);
        reply
    }

    pub fn probe_step(
        &mut self,
        transaction: &mut ProbeTransaction,
        fingerprint: &GpuFingerprint,
        descriptor: &ShimDescriptor,
        step: ProbeStep,
        attempt: u8,
    ) -> (reply: Result<ProbeObservation, BackendFault>)
        ensures
            final(self).log() == old(self).log().push(
                BackendEvent::Probe {
                    before: *old(transaction),
                    fingerprint: *fingerprint,
                    descriptor: *descriptor,
                    step,
                    attempt,
                    after: *final(transaction),
                    reply,
                },
            ),
    {
        let reply = self.backend.probe_step(transaction, fingerprint, descriptor, step, attempt);
        reply
    }

    pub fn activate(
        &mut self,
        transaction: &mut ProbeTransaction,
        fingerprint: &GpuFingerprint,
        descriptor: &ShimDescriptor,
    ) -> (reply: Result<ActivationReceipt, BackendFault>)
        ensures
            final(self).log() == old(self).log().push(
                BackendEvent::Activate {
                    before: *old(transaction),
                    fingerprint: *fingerprint,
                    descriptor: *descriptor,
                    after: *final(transaction),
                    reply,
                },
            ),
    {
        let reply = self.backend.activate(transaction, fingerprint, descriptor);
        reply
    }

    pub fn health_check(
        &mut self,
        transaction: &mut ProbeTransaction,
        activation: &ActivationReceipt,
        descriptor: &ShimDescriptor,
    ) -> (reply: Result<HealthReceipt, BackendFault>)
        ensures
            final(self).log() == old(self).log().push(
                BackendEvent::Health {
                    before: *old(transaction),
                    activation: *activation,
                    descriptor: *descriptor,
                    after: *final(transaction),
                    reply,
                },
            ),
    {
        let reply = self.backend.health_check(transaction, activation, descriptor);
        reply
    }

    pub fn commit(
        &mut self,
        transaction: &mut ProbeTransaction,
        activation: &ActivationReceipt,
        health: &HealthReceipt,
        decision: &OracleDecision,
    ) -> (reply: Result<DriverLease, BackendFault>)
        ensures
            final(self).log() == old(self).log().push(
                BackendEvent::Commit {
                    before: *old(transaction),
                    activation: *activation,
                    health: *health,
                    decision: *decision,
                    after: *final(transaction),
                    reply,
                },
            ),
    {
        let reply = self.backend.commit(transaction, activation, health, decision);
        reply
    }

    pub fn rollback(
        &mut self,
        transaction: &mut ProbeTransaction,
        stage: DispatchStage,
        fault: BackendFault,
    ) -> (reply: Result<(), BackendFault>)
        ensures
            final(self).log() == old(self).log().push(
                BackendEvent::Rollback {
                    before: *old(transaction),
                    stage,
                    fault,
                    after: *final(transaction),
                    reply,
                },
            ),
    {
        let reply = self.backend.rollback(transaction, stage, fault);
        reply
    }
}

// What a transcript answers at a place, where that question was asked there.

pub open spec fn tick_at(log: Seq<BackendEvent>, at: int) -> Option<u64> {
    if 0 <= at < log.len() && log[at] is Tick {
        Some(log[at]->Tick_0)
    } else {
        None
    }
}

pub open spec fn begin_at(
    log: Seq<BackendEvent>,
    at: int,
    case: Candidacy,
) -> Option<Result<ProbeTransaction, BackendFault>> {
    if 0 <= at < log.len() && log[at] is Begin && log[at]->Begin_fingerprint == *case.fingerprint
        && log[at]->Begin_descriptor == *case.descriptor && log[at]->Begin_decision
        == *case.decision {
        Some(log[at]->Begin_reply)
    } else {
        None
    }
}

pub open spec fn probe_at(
    log: Seq<BackendEvent>,
    at: int,
    case: Candidacy,
    transaction: ProbeTransaction,
    step: ProbeStep,
    attempt: int,
) -> Option<(ProbeTransaction, Result<ProbeObservation, BackendFault>)> {
    if 0 <= at < log.len() && log[at] is Probe && log[at]->Probe_before == transaction
        && log[at]->Probe_fingerprint == *case.fingerprint && log[at]->Probe_descriptor
        == *case.descriptor && log[at]->step == step && log[at]->attempt == attempt {
        Some((log[at]->Probe_after, log[at]->Probe_reply))
    } else {
        None
    }
}

pub open spec fn activate_at(
    log: Seq<BackendEvent>,
    at: int,
    case: Candidacy,
    transaction: ProbeTransaction,
) -> Option<(ProbeTransaction, Result<ActivationReceipt, BackendFault>)> {
    if 0 <= at < log.len() && log[at] is Activate && log[at]->Activate_before == transaction
        && log[at]->Activate_fingerprint == *case.fingerprint && log[at]->Activate_descriptor
        == *case.descriptor {
        Some((log[at]->Activate_after, log[at]->Activate_reply))
    } else {
        None
    }
}

pub open spec fn health_at(
    log: Seq<BackendEvent>,
    at: int,
    case: Candidacy,
    transaction: ProbeTransaction,
    activation: ActivationReceipt,
) -> Option<(ProbeTransaction, Result<HealthReceipt, BackendFault>)> {
    if 0 <= at < log.len() && log[at] is Health && log[at]->Health_before == transaction
        && log[at]->Health_activation == activation && log[at]->Health_descriptor
        == *case.descriptor {
        Some((log[at]->Health_after, log[at]->Health_reply))
    } else {
        None
    }
}

pub open spec fn commit_at(
    log: Seq<BackendEvent>,
    at: int,
    case: Candidacy,
    transaction: ProbeTransaction,
    activation: ActivationReceipt,
    health: HealthReceipt,
) -> Option<(ProbeTransaction, Result<DriverLease, BackendFault>)> {
    if 0 <= at < log.len() && log[at] is Commit && log[at]->Commit_before == transaction
        && log[at]->Commit_activation == activation && log[at]->health == health
        && log[at]->Commit_decision == *case.decision {
        Some((log[at]->Commit_after, log[at]->Commit_reply))
    } else {
        None
    }
}

pub open spec fn rollback_at(
    log: Seq<BackendEvent>,
    at: int,
    transaction: ProbeTransaction,
    stage: DispatchStage,
    fault: BackendFault,
) -> Option<(ProbeTransaction, Result<(), BackendFault>)> {
    if 0 <= at < log.len() && log[at] is Rollback && log[at]->Rollback_before == transaction
        && log[at]->stage == stage && log[at]->fault == fault {
        Some((log[at]->Rollback_after, log[at]->Rollback_reply))
    } else {
        None
    }
}

/// One candidate as it is tried: the evidence, the decision that ranked it and
/// the descriptor that says how.
#[derive(Clone, Copy)]
pub struct Candidacy<'a> {
    pub secret: u64,
    pub fingerprint: &'a GpuFingerprint,
    pub decision: &'a OracleDecision,
    pub candidate: RankedCandidate,
    pub descriptor: &'a ShimDescriptor,
}

/// A lease with the record of its attempt and whether the firmware display
/// survived, or the record of an attempt that failed.
pub type Attempt = Result<(DriverLease, AttemptRecord, bool), AttemptRecord>;

/// The record of an attempt that failed, not sealed yet.
#[verifier::allow_in_spec]
pub fn failure_record(
    candidate: RankedCandidate,
    decision: &OracleDecision,
    started_tick: u64,
    ended_tick: u64,
    stage: DispatchStage,
    outcome: AttemptOutcome,
    fault: FaultCode,
    detail: u64,
    evidence_mask: u32,
) -> AttemptRecord
    returns
        (AttemptRecord {
            strategy: candidate.strategy,
            stage,
            outcome,
            score: candidate.score,
            confidence_q16: decision.confidence_q16,
            started_tick,
            ended_tick,
            evidence_mask,
            fault,
            detail,
            root: 0,
        }),
{
    AttemptRecord {
        strategy: candidate.strategy,
        stage,
        outcome,
        score: candidate.score,
        confidence_q16: decision.confidence_q16,
        started_tick,
        ended_tick,
        evidence_mask,
        fault,
        detail,
        root: 0,
    }
}

/// The record of an attempt that was rolled back: where the rollback failed
/// too, its fault takes the place of the one that caused it.
pub open spec fn rollback_record_of(
    case: Candidacy,
    started_tick: u64,
    ended_tick: u64,
    stage: DispatchStage,
    evidence_mask: u32,
    fault: BackendFault,
    rollback: Result<(), BackendFault>,
) -> AttemptRecord {
    match rollback {
        Ok(()) => failure_record(
            case.candidate,
            case.decision,
            started_tick,
            ended_tick,
            stage,
            AttemptOutcome::RolledBack,
            fault.code,
            fault.detail,
            evidence_mask,
        ),
        Err(second) => failure_record(
            case.candidate,
            case.decision,
            started_tick,
            ended_tick,
            stage,
            AttemptOutcome::CommitRejected,
            FaultCode::RollbackFault,
            second.detail,
            evidence_mask,
        ),
    }.sealed(case.secret)
}

/// Giving a transaction up: one rollback with the fault that caused it, then
/// the record.
pub open spec fn abandon_run(
    case: Candidacy,
    started: u64,
    stage: DispatchStage,
    transaction: ProbeTransaction,
    fault: BackendFault,
    log: Seq<BackendEvent>,
    at: int,
) -> Option<(Attempt, int)> {
    match (rollback_at(log, at, transaction, stage, fault), tick_at(log, at + 1)) {
        (Some((after, reply)), Some(ended)) => Some(
            (
                Err(
                    rollback_record_of(
                        case,
                        started,
                        ended,
                        stage,
                        after.evidence_mask,
                        fault,
                        reply,
                    ),
                ),
                at + 2,
            ),
        ),
        _ => None,
    }
}

/// Whether an observation answers a step.
#[verifier::allow_in_spec]
pub fn observation_answers(step: ProbeStep, observation: ProbeObservation) -> bool
    returns
        observation.semantic == step.semantic && observation.evidence_bit & step.evidence_bit
            == step.evidence_bit && observation.root != 0,
{
    observation.semantic == step.semantic && observation.evidence_bit & step.evidence_bit
        == step.evidence_bit && observation.root != 0
}

/// The transaction after an observation was accepted.
pub open spec fn observed(
    transaction: ProbeTransaction,
    observation: ProbeObservation,
) -> ProbeTransaction {
    ProbeTransaction {
        evidence_mask: transaction.evidence_mask | observation.evidence_bit,
        observation_root: crate::seal::mix_of(transaction.observation_root, observation.root),
        ..transaction
    }
}

/// One probe step from an attempt on: a fault that may be retried is retried
/// while retries and time are left.
pub open spec fn step_run(
    case: Candidacy,
    step: ProbeStep,
    attempt: int,
    step_deadline: u64,
    program_deadline: u64,
    transaction: ProbeTransaction,
    log: Seq<BackendEvent>,
    at: int,
) -> Option<(Result<ProbeObservation, BackendFault>, ProbeTransaction, int)>
    decreases step.retries - attempt,
{
    match probe_at(log, at, case, transaction, step, attempt) {
        None => None,
        Some((after, Ok(observation))) => if observation_answers(step, observation) {
            Some((Ok(observation), observed(after, observation), at + 1))
        } else {
            Some(
                (
                    Err(BackendFault::new(FaultCode::ProbeFault, false, observation.root)),
                    after,
                    at + 1,
                ),
            )
        },
        Some((after, Err(fault))) => if fault.retryable && attempt < step.retries {
            match tick_at(log, at + 1) {
                None => None,
                Some(now) => if now > step_deadline || now > program_deadline {
                    Some(
                        (
                            Err(BackendFault::new(FaultCode::ProbeTimeout, false, now)),
                            after,
                            at + 2,
                        ),
                    )
                } else {
                    step_run(
                        case,
                        step,
                        attempt + 1,
                        step_deadline,
                        program_deadline,
                        after,
                        log,
                        at + 2,
                    )
                },
            }
        } else {
            Some((Err(fault), after, at + 1))
        },
    }
}

/// The steps of a program from `index` on, each within its own time and all
/// within the program's.
pub open spec fn program_run(
    case: Candidacy,
    steps: Seq<ProbeStep>,
    index: int,
    deadline: u64,
    transaction: ProbeTransaction,
    observations: Seq<ProbeObservation>,
    log: Seq<BackendEvent>,
    at: int,
) -> Option<(Result<Seq<ProbeObservation>, BackendFault>, ProbeTransaction, int)>
    decreases steps.len() - index,
{
    if index >= steps.len() {
        Some((Ok(observations), transaction, at))
    } else {
        match tick_at(log, at) {
            None => None,
            Some(start) => {
                let step_deadline = start.saturating_add(steps[index].maximum_ticks as u64);
                match step_run(
                    case,
                    steps[index],
                    0,
                    step_deadline,
                    deadline,
                    transaction,
                    log,
                    at + 1,
                ) {
                    None => None,
                    Some((Err(fault), after, end)) => Some((Err(fault), after, end)),
                    Some((Ok(observation), after, end)) => match tick_at(log, end) {
                        None => None,
                        Some(now) => if now > step_deadline || now > deadline {
                            Some(
                                (
                                    Err(BackendFault::new(FaultCode::ProbeTimeout, false, now)),
                                    after,
                                    end + 1,
                                ),
                            )
                        } else {
                            program_run(
                                case,
                                steps,
                                index + 1,
                                deadline,
                                after,
                                observations.push(observation),
                                log,
                                end + 1,
                            )
                        },
                    },
                }
            },
        }
    }
}

/// The words that seal what a program observed.
pub open spec fn observation_words(observations: Seq<ProbeObservation>, upto: int) -> Seq<u64>
    decreases upto,
{
    if upto <= 0 {
        seq![observations.len() as u64]
    } else {
        let observation = observations[upto - 1];
        observation_words(observations, upto - 1).push(observation.root).push(
            observation.evidence_bit as u64,
        ).push(observation.tick)
    }
}

/// The transaction after its program was run to the end.
pub open spec fn probed(
    transaction: ProbeTransaction,
    observations: Seq<ProbeObservation>,
) -> ProbeTransaction {
    ProbeTransaction {
        observation_root: crate::seal::seal_of(
            transaction.observation_root,
            observation_words(observations, observations.len() as int),
        ),
        ..transaction
    }
}

/// A whole probe program.
pub open spec fn probe_run(
    case: Candidacy,
    transaction: ProbeTransaction,
    log: Seq<BackendEvent>,
    at: int,
) -> Option<(Result<(), BackendFault>, ProbeTransaction, int)> {
    match tick_at(log, at) {
        None => None,
        Some(start) => match program_run(
            case,
            case.descriptor.program.listed(),
            0,
            start.saturating_add(case.descriptor.program.maximum_total_ticks),
            transaction,
            Seq::empty(),
            log,
            at + 1,
        ) {
            None => None,
            Some((Err(fault), after, end)) => Some((Err(fault), after, end)),
            Some((Ok(observations), after, end)) => Some(
                (Ok(()), probed(after, observations), end),
            ),
        },
    }
}

/// Whether a lease is what a commit owes.
pub open spec fn lease_fits(case: Candidacy, lease: DriverLease) -> bool {
    &&& lease.valid()
    &&& lease.strategy == case.descriptor.strategy
    &&& lease.fingerprint_root == case.fingerprint.evidence_root
    &&& lease.decision_root == case.decision.decision_root
}

/// The record of a committed attempt.
pub open spec fn commit_record_of(
    case: Candidacy,
    started: u64,
    lease: DriverLease,
    evidence_mask: u32,
) -> AttemptRecord {
    (AttemptRecord {
        strategy: case.candidate.strategy,
        stage: DispatchStage::Complete,
        outcome: AttemptOutcome::Committed,
        score: case.candidate.score,
        confidence_q16: case.decision.confidence_q16,
        started_tick: started,
        ended_tick: lease.committed_tick,
        evidence_mask,
        fault: FaultCode::Clear,
        detail: lease.handle,
        root: 0,
    }).sealed(case.secret)
}

pub open spec fn commit_run(
    case: Candidacy,
    started: u64,
    transaction: ProbeTransaction,
    activation: ActivationReceipt,
    health: HealthReceipt,
    log: Seq<BackendEvent>,
    at: int,
) -> Option<(Attempt, int)> {
    match commit_at(log, at, case, transaction, activation, health) {
        None => None,
        Some((after, Err(fault))) => abandon_run(
            case,
            started,
            DispatchStage::Commit,
            after,
            fault,
            log,
            at + 1,
        ),
        Some((after, Ok(lease))) => if lease_fits(case, lease) {
            Some(
                (
                    Ok(
                        (
                            lease,
                            commit_record_of(case, started, lease, after.evidence_mask),
                            after.firmware_preserved,
                        ),
                    ),
                    at + 1,
                ),
            )
        } else {
            abandon_run(
                case,
                started,
                DispatchStage::Commit,
                after,
                BackendFault::new(FaultCode::CommitFault, false, 0),
                log,
                at + 1,
            )
        },
    }
}

pub open spec fn health_run(
    case: Candidacy,
    started: u64,
    transaction: ProbeTransaction,
    activation: ActivationReceipt,
    log: Seq<BackendEvent>,
    at: int,
) -> Option<(Attempt, int)> {
    match (tick_at(log, at), health_at(log, at + 1, case, transaction, activation)) {
        (Some(start), Some((after, reply))) => {
            let deadline = start.saturating_add(case.descriptor.health_budget_ticks);
            match reply {
                Err(fault) => abandon_run(
                    case,
                    started,
                    DispatchStage::HealthCheck,
                    after,
                    fault,
                    log,
                    at + 2,
                ),
                Ok(receipt) => if !receipt.healthy || receipt.root == 0 {
                    abandon_run(
                        case,
                        started,
                        DispatchStage::HealthCheck,
                        after,
                        BackendFault::new(FaultCode::Unhealthy, false, receipt.fault_mask),
                        log,
                        at + 2,
                    )
                } else {
                    match tick_at(log, at + 2) {
                        None => None,
                        Some(now) => if now > deadline {
                            abandon_run(
                                case,
                                started,
                                DispatchStage::HealthCheck,
                                after,
                                BackendFault::new(FaultCode::HealthTimeout, false, deadline),
                                log,
                                at + 3,
                            )
                        } else {
                            commit_run(case, started, after, activation, receipt, log, at + 3)
                        },
                    }
                },
            }
        },
        _ => None,
    }
}

pub open spec fn activation_run(
    case: Candidacy,
    started: u64,
    transaction: ProbeTransaction,
    log: Seq<BackendEvent>,
    at: int,
) -> Option<(Attempt, int)> {
    match (tick_at(log, at), activate_at(log, at + 1, case, transaction)) {
        (Some(start), Some((after, reply))) => {
            let deadline = start.saturating_add(case.descriptor.activation_budget_ticks);
            match reply {
                Err(fault) => abandon_run(
                    case,
                    started,
                    DispatchStage::Activate,
                    after,
                    fault,
                    log,
                    at + 2,
                ),
                Ok(receipt) => if !receipt.valid() || receipt.strategy
                    != case.descriptor.strategy {
                    abandon_run(
                        case,
                        started,
                        DispatchStage::Activate,
                        after,
                        BackendFault::new(FaultCode::ActivationFault, false, 0),
                        log,
                        at + 2,
                    )
                } else {
                    match tick_at(log, at + 2) {
                        None => None,
                        Some(now) => if now > deadline {
                            abandon_run(
                                case,
                                started,
                                DispatchStage::Activate,
                                after,
                                BackendFault::new(FaultCode::ActivationTimeout, false, deadline),
                                log,
                                at + 3,
                            )
                        } else {
                            health_run(case, started, after, receipt, log, at + 3)
                        },
                    }
                },
            }
        },
        _ => None,
    }
}

/// Why a transaction that began must be given up at once, if it must.
pub open spec fn begin_fault(case: Candidacy, transaction: ProbeTransaction) -> Option<
    BackendFault,
> {
    if transaction.fingerprint_root != case.fingerprint.evidence_root || transaction.strategy
        != case.candidate.strategy {
        Some(
            BackendFault::new(
                FaultCode::FingerprintMismatch,
                false,
                transaction.fingerprint_root,
            ),
        )
    } else if case.descriptor.flags & SHIM_FLAG_PRESERVE_FIRMWARE_DISPLAY != 0
        && case.fingerprint.firmware_display_usable() && !transaction.firmware_preserved {
        Some(
            BackendFault::new(
                FaultCode::TransactionRejected,
                false,
                SHIM_FLAG_PRESERVE_FIRMWARE_DISPLAY as u64,
            ),
        )
    } else {
        None
    }
}

/// Why a probed transaction cannot be activated, if it cannot.
pub open spec fn evidence_fault(case: Candidacy, transaction: ProbeTransaction) -> Option<
    BackendFault,
> {
    let required = case.descriptor.program.required_evidence;
    if transaction.evidence_mask & required != required {
        Some(
            BackendFault::new(
                FaultCode::MissingProbeEvidence,
                false,
                (required & !transaction.evidence_mask) as u64,
            ),
        )
    } else {
        None
    }
}

pub open spec fn transaction_run(
    case: Candidacy,
    started: u64,
    transaction: ProbeTransaction,
    log: Seq<BackendEvent>,
    at: int,
) -> Option<(Attempt, int)> {
    match begin_fault(case, transaction) {
        Some(fault) => abandon_run(
            case,
            started,
            DispatchStage::BeginTransaction,
            transaction,
            fault,
            log,
            at,
        ),
        None => match probe_run(case, transaction, log, at) {
            None => None,
            Some((Err(fault), after, end)) => abandon_run(
                case,
                started,
                DispatchStage::Probe,
                after,
                fault,
                log,
                end,
            ),
            Some((Ok(()), after, end)) => match evidence_fault(case, after) {
                Some(fault) => abandon_run(
                    case,
                    started,
                    DispatchStage::Probe,
                    after,
                    fault,
                    log,
                    end,
                ),
                None => activation_run(case, started, after, log, end),
            },
        },
    }
}

/// One candidate from beginning to end: a transaction is opened, probed,
/// activated, checked and committed; whatever fails after it was opened is
/// rolled back.
pub open spec fn candidate_run(case: Candidacy, log: Seq<BackendEvent>, at: int) -> Option<
    (Attempt, int),
> {
    match (tick_at(log, at), begin_at(log, at + 1, case)) {
        (Some(started), Some(reply)) => {
            if reply is Ok && reply->Ok_0.valid() {
                transaction_run(case, started, reply->Ok_0, log, at + 2)
            } else {
                match tick_at(log, at + 2) {
                    None => None,
                    Some(ended) => Some(
                        (
                            Err(
                                failure_record(
                                    case.candidate,
                                    case.decision,
                                    started,
                                    ended,
                                    DispatchStage::BeginTransaction,
                                    AttemptOutcome::ActivationRejected,
                                    if reply is Ok {
                                        FaultCode::TransactionRejected
                                    } else {
                                        reply->Err_0.code
                                    },
                                    if reply is Ok {
                                        0
                                    } else {
                                        reply->Err_0.detail
                                    },
                                    0,
                                ).sealed(case.secret),
                            ),
                            at + 3,
                        ),
                    ),
                }
            }
        },
        _ => None,
    }
}

impl<'a> Candidacy<'a> {
    fn abandon<B: DriverNetBackend>(
        &self,
        started_tick: u64,
        stage: DispatchStage,
        transaction: ProbeTransaction,
        fault: BackendFault,
        backend: &mut BackendTrace<B>,
    ) -> (result: Attempt)
        ensures
            crate::trace::continues(final(backend).log(), old(backend).log()),
            forall|log: Seq<BackendEvent>| #[trigger]
                crate::trace::continues(log, final(backend).log()) ==> abandon_run(
                    *self,
                    started_tick,
                    stage,
                    transaction,
                    fault,
                    log,
                    old(backend).log().len() as int,
                ) == Some((result, final(backend).log().len() as int)),
    {
        let mut undone = transaction;
        let rollback = backend.rollback(&mut undone, stage, fault);
        let ended_tick: u64 = backend.now_tick();
        let record = match rollback {
            Ok(()) => failure_record(
                self.candidate,
                self.decision,
                started_tick,
                ended_tick,
                stage,
                AttemptOutcome::RolledBack,
                fault.code,
                fault.detail,
                undone.evidence_mask,
            ),
            Err(second) => failure_record(
                self.candidate,
                self.decision,
                started_tick,
                ended_tick,
                stage,
                AttemptOutcome::CommitRejected,
                FaultCode::RollbackFault,
                second.detail,
                undone.evidence_mask,
            ),
        };
        Err(seal_attempt(self.secret, record))
    }

    fn run_step<B: DriverNetBackend>(
        &self,
        step: ProbeStep,
        step_deadline: u64,
        program_deadline: u64,
        transaction: &mut ProbeTransaction,
        backend: &mut BackendTrace<B>,
    ) -> (result: Result<ProbeObservation, BackendFault>)
        ensures
            crate::trace::continues(final(backend).log(), old(backend).log()),
            forall|log: Seq<BackendEvent>| #[trigger]
                crate::trace::continues(log, final(backend).log()) ==> step_run(
                    *self,
                    step,
                    0,
                    step_deadline,
                    program_deadline,
                    *old(transaction),
                    log,
                    old(backend).log().len() as int,
                ) == Some((result, *final(transaction), final(backend).log().len() as int)),
    {
        let ghost start = backend.log();
        let ghost initial = *transaction;
        let mut attempt: u8 = 0;
        loop
            invariant
                attempt <= step.retries,
                start == old(backend).log(),
                initial == *old(transaction),
                crate::trace::continues(backend.log(), start),
                forall|log: Seq<BackendEvent>| #[trigger]
                    crate::trace::continues(log, backend.log()) ==> step_run(
                        *self,
                        step,
                        0,
                        step_deadline,
                        program_deadline,
                        initial,
                        log,
                        start.len() as int,
                    ) == step_run(
                        *self,
                        step,
                        attempt as int,
                        step_deadline,
                        program_deadline,
                        *transaction,
                        log,
                        backend.log().len() as int,
                    ),
            decreases step.retries - attempt,
        {
            let ghost head = backend.log();
            let reply = backend.probe_step(
                transaction,
                self.fingerprint,
                self.descriptor,
                step,
                attempt,
            );
            assert forall|log: Seq<BackendEvent>| #[trigger]
                crate::trace::continues(log, backend.log()) implies crate::trace::continues(
                log,
                head,
            ) by {}
            match reply {
                Ok(observation) => {
                    if observation_answers(step, observation) {
                        transaction.evidence_mask = transaction.evidence_mask
                            | observation.evidence_bit;
                        transaction.observation_root = mix(
                            transaction.observation_root,
                            observation.root,
                        );
                        return Ok(observation);
                    }
                    return Err(BackendFault::new(FaultCode::ProbeFault, false, observation.root));
                },
                Err(fault) => {
                    if !fault.retryable || attempt >= step.retries {
                        return Err(fault);
                    }
                },
            }
            let now: u64 = backend.now_tick();
            assert forall|log: Seq<BackendEvent>| #[trigger]
                crate::trace::continues(log, backend.log()) implies crate::trace::continues(
                log,
                head,
            ) by {}
            if now > step_deadline || now > program_deadline {
                return Err(BackendFault::new(FaultCode::ProbeTimeout, false, now));
            }
            attempt += 1;
        }
    }

    fn run_probe_program<B: DriverNetBackend>(
        &self,
        transaction: &mut ProbeTransaction,
        backend: &mut BackendTrace<B>,
    ) -> (result: Result<(), BackendFault>)
        ensures
            crate::trace::continues(final(backend).log(), old(backend).log()),
            forall|log: Seq<BackendEvent>| #[trigger]
                crate::trace::continues(log, final(backend).log()) ==> probe_run(
                    *self,
                    *old(transaction),
                    log,
                    old(backend).log().len() as int,
                ) == Some((result, *final(transaction), final(backend).log().len() as int)),
    {
        let ghost initial = *transaction;
        let ghost zero = backend.log();
        let begun: u64 = backend.now_tick();
        let deadline: u64 = begun.saturating_add(self.descriptor.program.maximum_total_ticks);
        let steps = self.descriptor.program.steps();
        let mut observations: Vec<ProbeObservation> = Vec::new();
        let ghost start = backend.log();
        let mut index: usize = 0;
        while index < steps.len()
            invariant
                index <= steps@.len(),
                steps@.len() <= 12,
                observations@.len() == index,
                crate::trace::continues(backend.log(), start),
                crate::trace::continues(backend.log(), zero),
                zero == old(backend).log(),
                start == zero.push(BackendEvent::Tick(begun)),
                initial == *old(transaction),
                steps@ == self.descriptor.program.listed(),
                deadline == begun.saturating_add(self.descriptor.program.maximum_total_ticks),
                forall|log: Seq<BackendEvent>| #[trigger]
                    crate::trace::continues(log, backend.log()) ==> program_run(
                        *self,
                        steps@,
                        0,
                        deadline,
                        initial,
                        Seq::empty(),
                        log,
                        start.len() as int,
                    ) == program_run(
                        *self,
                        steps@,
                        index as int,
                        deadline,
                        *transaction,
                        observations@,
                        log,
                        backend.log().len() as int,
                    ),
            decreases steps@.len() - index,
        {
            let step = steps[index];
            let ghost head = backend.log();
            let step_start: u64 = backend.now_tick();
            let step_deadline: u64 = step_start.saturating_add(step.maximum_ticks as u64);
            let ghost timed = backend.log();
            let outcome = self.run_step(step, step_deadline, deadline, transaction, backend);
            let ghost stepped = backend.log();
            let observation = match outcome {
                Ok(observation) => observation,
                Err(fault) => {
                    assert forall|log: Seq<BackendEvent>| #[trigger]
                        crate::trace::continues(log, backend.log()) implies {
                        &&& crate::trace::continues(log, head)
                        &&& crate::trace::continues(log, timed)
                        &&& crate::trace::continues(log, start)
                    } by {}
                    return Err(fault);
                },
            };
            let now: u64 = backend.now_tick();
            assert forall|log: Seq<BackendEvent>| #[trigger]
                crate::trace::continues(log, backend.log()) implies {
                &&& crate::trace::continues(log, head)
                &&& crate::trace::continues(log, timed)
                &&& crate::trace::continues(log, stepped)
                &&& crate::trace::continues(log, start)
            } by {}
            if now > step_deadline || now > deadline {
                return Err(BackendFault::new(FaultCode::ProbeTimeout, false, now));
            }
            observations.push(observation);
            index += 1;
        }
        let ghost last = *transaction;
        let mut sealer = Sealer::new(transaction.observation_root).word(observations.len() as u64);
        let mut sealed: usize = 0;
        while sealed < observations.len()
            invariant
                sealed <= observations@.len(),
                sealer.seed() == last.observation_root,
                sealer.words() =~= observation_words(observations@, sealed as int),
            decreases observations@.len() - sealed,
        {
            let observation = observations[sealed];
            sealer = sealer.word(observation.root).word(observation.evidence_bit as u64).word(
                observation.tick,
            );
            sealed += 1;
        }
        transaction.observation_root = sealer.root();
        proof {
            assert(*transaction == probed(last, observations@));
            assert forall|log: Seq<BackendEvent>| #[trigger]
                crate::trace::continues(log, backend.log()) implies crate::trace::continues(
                log,
                start,
            ) by {}
        }
        Ok(())
    }

    fn run_commit<B: DriverNetBackend>(
        &self,
        started_tick: u64,
        transaction: ProbeTransaction,
        activation: &ActivationReceipt,
        health: &HealthReceipt,
        backend: &mut BackendTrace<B>,
    ) -> (result: Attempt)
        ensures
            crate::trace::continues(final(backend).log(), old(backend).log()),
            forall|log: Seq<BackendEvent>| #[trigger]
                crate::trace::continues(log, final(backend).log()) ==> commit_run(
                    *self,
                    started_tick,
                    transaction,
                    *activation,
                    *health,
                    log,
                    old(backend).log().len() as int,
                ) == Some((result, final(backend).log().len() as int)),
    {
        let mut held = transaction;
        let reply = backend.commit(&mut held, activation, health, self.decision);
        let ghost answered = backend.log();
        let fault = match reply {
            Ok(lease) => {
                if lease.valid() && lease.strategy == self.descriptor.strategy
                    && lease.fingerprint_root == self.fingerprint.evidence_root
                    && lease.decision_root == self.decision.decision_root {
                    let record = seal_attempt(
                        self.secret,
                        AttemptRecord {
                            strategy: self.candidate.strategy,
                            stage: DispatchStage::Complete,
                            outcome: AttemptOutcome::Committed,
                            score: self.candidate.score,
                            confidence_q16: self.decision.confidence_q16,
                            started_tick,
                            ended_tick: lease.committed_tick,
                            evidence_mask: held.evidence_mask,
                            fault: FaultCode::Clear,
                            detail: lease.handle,
                            root: 0,
                        },
                    );
                    return Ok((lease, record, held.firmware_preserved));
                }
                BackendFault::new(FaultCode::CommitFault, false, 0)
            },
            Err(fault) => fault,
        };
        let result = self.abandon(started_tick, DispatchStage::Commit, held, fault, backend);
        assert forall|log: Seq<BackendEvent>| #[trigger]
            crate::trace::continues(log, backend.log()) implies crate::trace::continues(
            log,
            answered,
        ) by {}
        result
    }

    fn run_health<B: DriverNetBackend>(
        &self,
        started_tick: u64,
        transaction: ProbeTransaction,
        activation: &ActivationReceipt,
        backend: &mut BackendTrace<B>,
    ) -> (result: Attempt)
        ensures
            crate::trace::continues(final(backend).log(), old(backend).log()),
            forall|log: Seq<BackendEvent>| #[trigger]
                crate::trace::continues(log, final(backend).log()) ==> health_run(
                    *self,
                    started_tick,
                    transaction,
                    *activation,
                    log,
                    old(backend).log().len() as int,
                ) == Some((result, final(backend).log().len() as int)),
    {
        let mut held = transaction;
        let start: u64 = backend.now_tick();
        let deadline: u64 = start.saturating_add(self.descriptor.health_budget_ticks);
        let reply = backend.health_check(&mut held, activation, self.descriptor);
        let ghost mut answered = backend.log();
        let fault = match reply {
            Ok(receipt) => {
                if receipt.healthy && receipt.root != 0 {
                    let now: u64 = backend.now_tick();
                    proof {
                        answered = backend.log();
                    }
                    if now <= deadline {
                        let result = self.run_commit(
                            started_tick,
                            held,
                            activation,
                            &receipt,
                            backend,
                        );
                        assert forall|log: Seq<BackendEvent>| #[trigger]
                            crate::trace::continues(
                                log,
                                backend.log(),
                            ) implies crate::trace::continues(log, answered) by {}
                        return result;
                    }
                    BackendFault::new(FaultCode::HealthTimeout, false, deadline)
                } else {
                    BackendFault::new(FaultCode::Unhealthy, false, receipt.fault_mask)
                }
            },
            Err(fault) => fault,
        };
        let result = self.abandon(started_tick, DispatchStage::HealthCheck, held, fault, backend);
        assert forall|log: Seq<BackendEvent>| #[trigger]
            crate::trace::continues(log, backend.log()) implies crate::trace::continues(
            log,
            answered,
        ) by {}
        result
    }

    fn run_activation<B: DriverNetBackend>(
        &self,
        started_tick: u64,
        transaction: ProbeTransaction,
        backend: &mut BackendTrace<B>,
    ) -> (result: Attempt)
        ensures
            crate::trace::continues(final(backend).log(), old(backend).log()),
            forall|log: Seq<BackendEvent>| #[trigger]
                crate::trace::continues(log, final(backend).log()) ==> activation_run(
                    *self,
                    started_tick,
                    transaction,
                    log,
                    old(backend).log().len() as int,
                ) == Some((result, final(backend).log().len() as int)),
    {
        let mut held = transaction;
        let start: u64 = backend.now_tick();
        let deadline: u64 = start.saturating_add(self.descriptor.activation_budget_ticks);
        let reply = backend.activate(&mut held, self.fingerprint, self.descriptor);
        let ghost mut answered = backend.log();
        let fault = match reply {
            Ok(receipt) => {
                if receipt.valid() && receipt.strategy == self.descriptor.strategy {
                    let now: u64 = backend.now_tick();
                    proof {
                        answered = backend.log();
                    }
                    if now <= deadline {
                        let result = self.run_health(started_tick, held, &receipt, backend);
                        assert forall|log: Seq<BackendEvent>| #[trigger]
                            crate::trace::continues(
                                log,
                                backend.log(),
                            ) implies crate::trace::continues(log, answered) by {}
                        return result;
                    }
                    BackendFault::new(FaultCode::ActivationTimeout, false, deadline)
                } else {
                    BackendFault::new(FaultCode::ActivationFault, false, 0)
                }
            },
            Err(fault) => fault,
        };
        let result = self.abandon(started_tick, DispatchStage::Activate, held, fault, backend);
        assert forall|log: Seq<BackendEvent>| #[trigger]
            crate::trace::continues(log, backend.log()) implies crate::trace::continues(
            log,
            answered,
        ) by {}
        result
    }

    fn run_transaction<B: DriverNetBackend>(
        &self,
        started_tick: u64,
        transaction: ProbeTransaction,
        backend: &mut BackendTrace<B>,
    ) -> (result: Attempt)
        ensures
            crate::trace::continues(final(backend).log(), old(backend).log()),
            forall|log: Seq<BackendEvent>| #[trigger]
                crate::trace::continues(log, final(backend).log()) ==> transaction_run(
                    *self,
                    started_tick,
                    transaction,
                    log,
                    old(backend).log().len() as int,
                ) == Some((result, final(backend).log().len() as int)),
    {
        if transaction.fingerprint_root != self.fingerprint.evidence_root || transaction.strategy
            != self.candidate.strategy {
            let fault = BackendFault::new(
                FaultCode::FingerprintMismatch,
                false,
                transaction.fingerprint_root,
            );
            return self.abandon(
                started_tick,
                DispatchStage::BeginTransaction,
                transaction,
                fault,
                backend,
            );
        }
        if self.descriptor.flags & SHIM_FLAG_PRESERVE_FIRMWARE_DISPLAY != 0
            && self.fingerprint.firmware_display_usable() && !transaction.firmware_preserved {
            let fault = BackendFault::new(
                FaultCode::TransactionRejected,
                false,
                SHIM_FLAG_PRESERVE_FIRMWARE_DISPLAY as u64,
            );
            return self.abandon(
                started_tick,
                DispatchStage::BeginTransaction,
                transaction,
                fault,
                backend,
            );
        }
        let mut held = transaction;
        let probed = self.run_probe_program(&mut held, backend);
        let ghost answered = backend.log();
        let result = match probed {
            Err(fault) => self.abandon(started_tick, DispatchStage::Probe, held, fault, backend),
            Ok(()) => {
                let required: u32 = self.descriptor.program.required_evidence;
                if held.evidence_mask & required != required {
                    let missing: u32 = required & !held.evidence_mask;
                    let fault = BackendFault::new(
                        FaultCode::MissingProbeEvidence,
                        false,
                        missing as u64,
                    );
                    self.abandon(started_tick, DispatchStage::Probe, held, fault, backend)
                } else {
                    self.run_activation(started_tick, held, backend)
                }
            },
        };
        assert forall|log: Seq<BackendEvent>| #[trigger]
            crate::trace::continues(log, backend.log()) implies crate::trace::continues(
            log,
            answered,
        ) by {}
        result
    }

    /// Tries one candidate from beginning to end.
    pub fn try_candidate<B: DriverNetBackend>(&self, backend: &mut BackendTrace<B>) -> (result:
        Attempt)
        ensures
            crate::trace::continues(final(backend).log(), old(backend).log()),
            forall|log: Seq<BackendEvent>| #[trigger]
                crate::trace::continues(log, final(backend).log()) ==> candidate_run(
                    *self,
                    log,
                    old(backend).log().len() as int,
                ) == Some((result, final(backend).log().len() as int)),
    {
        let started_tick: u64 = backend.now_tick();
        let reply = backend.begin(self.fingerprint, self.descriptor, self.decision);
        let ghost answered = backend.log();
        let rejected = match reply {
            Ok(transaction) => {
                if transaction.valid() {
                    let result = self.run_transaction(started_tick, transaction, backend);
                    assert forall|log: Seq<BackendEvent>| #[trigger]
                        crate::trace::continues(log, backend.log()) implies crate::trace::continues(
                        log,
                        answered,
                    ) by {}
                    return result;
                }
                (FaultCode::TransactionRejected, 0u64)
            },
            Err(fault) => (fault.code, fault.detail),
        };
        let ended_tick: u64 = backend.now_tick();
        Err(
            seal_attempt(
                self.secret,
                failure_record(
                    self.candidate,
                    self.decision,
                    started_tick,
                    ended_tick,
                    DispatchStage::BeginTransaction,
                    AttemptOutcome::ActivationRejected,
                    rejected.0,
                    rejected.1,
                    0,
                ),
            ),
        )
    }
}

/// The record of a candidate that was not tried.
pub open spec fn skip_record_of(
    secret: u64,
    candidate: RankedCandidate,
    confidence_q16: u16,
    started: u64,
    ended: u64,
) -> AttemptRecord {
    (AttemptRecord {
        strategy: candidate.strategy,
        stage: DispatchStage::CandidateGate,
        outcome: AttemptOutcome::Skipped,
        score: candidate.score,
        confidence_q16,
        started_tick: started,
        ended_tick: ended,
        evidence_mask: 0,
        fault: if candidate.admissible {
            FaultCode::DescriptorRejected
        } else {
            FaultCode::CandidateInadmissible
        },
        detail: candidate.gate_reason as u64,
        root: 0,
    }).sealed(secret)
}

/// How a walk over the candidates ends.
pub enum WalkEnd {
    Leased { lease: DriverLease, attempts: Seq<AttemptRecord>, preserved: bool },
    Unregistered,
    Exhausted { attempts: Seq<AttemptRecord> },
}

pub open spec fn counted_rollback(rollbacks: u64, record: AttemptRecord) -> u64 {
    if record.outcome == AttemptOutcome::RolledBack {
        rollbacks.saturating_add(1)
    } else {
        rollbacks
    }
}

/// The candidates of a decision from `index` on, in their order, until one is
/// leased.
pub open spec fn candidates_run(
    secret: u64,
    fingerprint: GpuFingerprint,
    decision: OracleDecision,
    descriptors: Seq<ShimDescriptor>,
    index: int,
    attempts: Seq<AttemptRecord>,
    rollbacks: u64,
    log: Seq<BackendEvent>,
    at: int,
) -> Option<(WalkEnd, u64, int)>
    decreases decision.length - index,
{
    if index >= decision.length {
        Some((WalkEnd::Exhausted { attempts }, rollbacks, at))
    } else {
        let candidate = decision.ranked[index];
        match (
            super::registry::described(descriptors, candidate.strategy),
            tick_at(log, at),
        ) {
            (None, _) => Some((WalkEnd::Unregistered, rollbacks, at)),
            (Some(_), None) => None,
            (Some(descriptor), Some(started)) => if !candidate.admissible || !descriptor.takes(
                fingerprint,
                decision.confidence_q16,
            ) {
                match tick_at(log, at + 1) {
                    None => None,
                    Some(ended) => candidates_run(
                        secret,
                        fingerprint,
                        decision,
                        descriptors,
                        index + 1,
                        attempts.push(
                            skip_record_of(
                                secret,
                                candidate,
                                decision.confidence_q16,
                                started,
                                ended,
                            ),
                        ),
                        rollbacks,
                        log,
                        at + 2,
                    ),
                }
            } else {
                match candidate_run(
                    Candidacy {
                        secret,
                        fingerprint: &fingerprint,
                        decision: &decision,
                        candidate,
                        descriptor: &descriptor,
                    },
                    log,
                    at + 1,
                ) {
                    None => None,
                    Some((Ok((lease, record, preserved)), end)) => Some(
                        (
                            WalkEnd::Leased { lease, attempts: attempts.push(record), preserved },
                            rollbacks,
                            end,
                        ),
                    ),
                    Some((Err(record), end)) => candidates_run(
                        secret,
                        fingerprint,
                        decision,
                        descriptors,
                        index + 1,
                        attempts.push(record),
                        counted_rollback(rollbacks, record),
                        log,
                        end,
                    ),
                }
            },
        }
    }
}

/// Resolves decisions into leases, one fingerprint at a time.
pub struct DriverDispatcher {
    pub secret: u64,
    pub decision_secret: u64,
    pub model: ModelExpectation,
    pub last_tick: u64,
    pub resolutions: u64,
    pub rollbacks: u64,
}

/// Whether a walk's end is what a resolution reports.
pub open spec fn reports(
    result: Result<DispatchResolution, DispatchError>,
    end: WalkEnd,
    secret: u64,
    fingerprint: GpuFingerprint,
    decision: OracleDecision,
) -> bool {
    match end {
        WalkEnd::Leased { lease, attempts, preserved } => {
            &&& result matches Ok(resolution) && {
                &&& resolution.fingerprint_root == fingerprint.evidence_root
                &&& resolution.decision_root == decision.decision_root
                &&& resolution.active_strategy == lease.strategy
                &&& resolution.lease == lease
                &&& resolution.attempts@ == attempts
                &&& resolution.retained_firmware_display == (
                fingerprint.firmware_display_usable() && preserved)
                &&& resolution.resolution_root == crate::seal::seal_of(secret, resolution.words())
            }
        },
        WalkEnd::Unregistered => result == Err::<DispatchResolution, _>(
            DispatchError::Registry(RegistryError::MissingStrategy),
        ),
        WalkEnd::Exhausted { attempts } => result matches Err(
            DispatchError::NoSafeStrategy { attempts: reported },
        ) && reported@ == attempts,
    }
}

impl DriverDispatcher {
    /// The dispatcher after a walk that began at a tick.
    pub open spec fn after_walk(self, now: u64, end: WalkEnd, rollbacks: u64) -> DriverDispatcher {
        match end {
            WalkEnd::Leased { lease, .. } => DriverDispatcher {
                last_tick: lease.committed_tick,
                resolutions: self.resolutions.saturating_add(1),
                rollbacks,
                ..self
            },
            _ => DriverDispatcher { last_tick: now, rollbacks, ..self },
        }
    }

    /// What resolving comes to: a decision that is not sealed for this
    /// dispatcher and one about another fingerprint are refused before any
    /// exchange, a clock that runs backwards right after the first; otherwise
    /// the candidates are walked.
    pub open spec fn resolves(
        self,
        after: DriverDispatcher,
        result: Result<DispatchResolution, DispatchError>,
        fingerprint: GpuFingerprint,
        decision: OracleDecision,
        descriptors: Seq<ShimDescriptor>,
        log: Seq<BackendEvent>,
        start: int,
        end: int,
    ) -> bool {
        if !decision.verified(self.decision_secret, self.model) {
            result == Err::<DispatchResolution, _>(DispatchError::CorruptDecision) && after == self
                && end == start
        } else if decision.fingerprint_root != fingerprint.evidence_root {
            result == Err::<DispatchResolution, _>(DispatchError::FingerprintMismatch) && after
                == self && end == start
        } else {
            tick_at(log, start) matches Some(now) && if self.last_tick != 0 && now
                < self.last_tick {
                result == Err::<DispatchResolution, _>(DispatchError::TimeRegression) && after
                    == self && end == start + 1
            } else {
                candidates_run(
                    self.secret,
                    fingerprint,
                    decision,
                    descriptors,
                    0,
                    Seq::empty(),
                    self.rollbacks,
                    log,
                    start + 1,
                ) matches Some((walk, rollbacks, finish)) && {
                    &&& finish == end
                    &&& reports(result, walk, self.secret, fingerprint, decision)
                    &&& after == self.after_walk(now, walk, rollbacks)
                }
            }
        }
    }

    pub fn new(secret: u64, decision_secret: u64, model: ModelExpectation) -> (result: Result<
        Self,
        DispatchError,
    >)
        ensures
            if secret == 0 || decision_secret == 0 || secret == decision_secret {
                result == Err::<Self, _>(DispatchError::CorruptDecision)
            } else {
                result == Ok::<Self, DispatchError>(
                    DriverDispatcher {
                        secret,
                        decision_secret,
                        model,
                        last_tick: 0,
                        resolutions: 0,
                        rollbacks: 0,
                    },
                )
            },
    {
        if secret == 0 || decision_secret == 0 || secret == decision_secret {
            return Err(DispatchError::CorruptDecision);
        }
        Ok(
            DriverDispatcher {
                secret,
                decision_secret,
                model,
                last_tick: 0,
                resolutions: 0,
                rollbacks: 0,
            },
        )
    }

    #[verifier::allow_in_spec]
    pub fn totals(&self) -> (u64, u64)
        returns
            (self.resolutions, self.rollbacks),
    {
        (self.resolutions, self.rollbacks)
    }

    #[verifier::rlimit(40)]
    pub fn resolve<B: DriverNetBackend>(
        &mut self,
        fingerprint: &GpuFingerprint,
        decision: &OracleDecision,
        registry: &ShimRegistry,
        backend: &mut BackendTrace<B>,
    ) -> (result: Result<DispatchResolution, DispatchError>)
        ensures
            crate::trace::continues(final(backend).log(), old(backend).log()),
            forall|log: Seq<BackendEvent>| #[trigger]
                crate::trace::continues(log, final(backend).log()) ==> old(self).resolves(
                    *final(self),
                    result,
                    *fingerprint,
                    *decision,
                    registry@,
                    log,
                    old(backend).log().len() as int,
                    final(backend).log().len() as int,
                ),
            !decision.verified(old(self).decision_secret, old(self).model)
                || decision.fingerprint_root != fingerprint.evidence_root
                ==> final(backend).backend == old(backend).backend,
    {
        if !decision.verify(self.decision_secret, self.model) {
            return Err(DispatchError::CorruptDecision);
        }
        if decision.fingerprint_root != fingerprint.evidence_root {
            return Err(DispatchError::FingerprintMismatch);
        }
        let ghost zero = backend.log();
        let now: u64 = backend.now_tick();
        if self.last_tick != 0 && now < self.last_tick {
            return Err(DispatchError::TimeRegression);
        }
        let ghost start = backend.log();
        let ghost before = *self;
        self.last_tick = now;
        let mut attempts: Vec<AttemptRecord> = Vec::new();
        let mut rollbacks: u64 = self.rollbacks;
        let mut index: usize = 0;
        let secret: u64 = self.secret;
        while index < decision.length
            invariant
                index <= decision.length <= 7,
                attempts@.len() == index,
                before == *old(self),
                *self == (DriverDispatcher { last_tick: now, ..before }),
                secret == before.secret,
                decision.verified(before.decision_secret, before.model),
                decision.fingerprint_root == fingerprint.evidence_root,
                before.last_tick == 0 || now >= before.last_tick,
                zero == old(backend).log(),
                start == zero.push(BackendEvent::Tick(now)),
                crate::trace::continues(backend.log(), start),
                crate::trace::continues(backend.log(), zero),
                forall|log: Seq<BackendEvent>| #[trigger]
                    crate::trace::continues(log, backend.log()) ==> candidates_run(
                        secret,
                        *fingerprint,
                        *decision,
                        registry@,
                        0,
                        Seq::empty(),
                        before.rollbacks,
                        log,
                        start.len() as int,
                    ) == candidates_run(
                        secret,
                        *fingerprint,
                        *decision,
                        registry@,
                        index as int,
                        attempts@,
                        rollbacks,
                        log,
                        backend.log().len() as int,
                    ),
            decreases decision.length - index,
        {
            let candidate = decision.ranked[index];
            let ghost head = backend.log();
            let descriptor = match registry.descriptor(candidate.strategy) {
                Ok(descriptor) => descriptor,
                Err(error) => {
                    self.rollbacks = rollbacks;
                    assert forall|log: Seq<BackendEvent>| #[trigger]
                        crate::trace::continues(log, backend.log()) implies old(self).resolves(
                        *self,
                        Err(DispatchError::Registry(error)),
                        *fingerprint,
                        *decision,
                        registry@,
                        log,
                        zero.len() as int,
                        backend.log().len() as int,
                    ) by {
                        assert(crate::trace::continues(log, start));
                    }
                    return Err(DispatchError::Registry(error));
                },
            };
            let started_tick: u64 = backend.now_tick();
            let ghost timed = backend.log();
            if !candidate.admissible || !descriptor.accepts(fingerprint, decision.confidence_q16) {
                let ended_tick: u64 = backend.now_tick();
                let record = seal_attempt(
                    secret,
                    AttemptRecord {
                        strategy: candidate.strategy,
                        stage: DispatchStage::CandidateGate,
                        outcome: AttemptOutcome::Skipped,
                        score: candidate.score,
                        confidence_q16: decision.confidence_q16,
                        started_tick,
                        ended_tick,
                        evidence_mask: 0,
                        fault: if candidate.admissible {
                            FaultCode::DescriptorRejected
                        } else {
                            FaultCode::CandidateInadmissible
                        },
                        detail: candidate.gate_reason as u64,
                        root: 0,
                    },
                );
                attempts.push(record);
                assert forall|log: Seq<BackendEvent>| #[trigger]
                    crate::trace::continues(log, backend.log()) implies crate::trace::continues(
                    log,
                    head,
                ) by {}
            } else {
                let case = Candidacy { secret, fingerprint, decision, candidate, descriptor };
                let outcome = case.try_candidate(backend);
                assert forall|log: Seq<BackendEvent>| #[trigger]
                    crate::trace::continues(log, backend.log()) implies {
                    &&& crate::trace::continues(log, head)
                    &&& crate::trace::continues(log, timed)
                    &&& crate::trace::continues(log, start)
                } by {}
                match outcome {
                    Ok((lease, record, firmware_preserved)) => {
                        attempts.push(record);
                        let ghost listed = attempts@;
                        self.resolutions = self.resolutions.saturating_add(1);
                        self.last_tick = lease.committed_tick;
                        self.rollbacks = rollbacks;
                        let mut resolution = DispatchResolution {
                            fingerprint_root: fingerprint.evidence_root,
                            decision_root: decision.decision_root,
                            active_strategy: lease.strategy,
                            lease,
                            attempts,
                            retained_firmware_display: fingerprint.firmware_display_usable()
                                && firmware_preserved,
                            resolution_root: 0,
                        };
                        let ghost unsealed = resolution;
                        resolution.resolution_root = resolution_root(secret, &resolution);
                        assert(resolution.words() == unsealed.words());
                        assert forall|log: Seq<BackendEvent>| #[trigger]
                            crate::trace::continues(log, backend.log()) implies old(self).resolves(
                            *self,
                            Ok(resolution),
                            *fingerprint,
                            *decision,
                            registry@,
                            log,
                            zero.len() as int,
                            backend.log().len() as int,
                        ) by {
                            assert(crate::trace::continues(log, start));
                            assert(candidates_run(
                                secret,
                                *fingerprint,
                                *decision,
                                registry@,
                                0,
                                Seq::empty(),
                                before.rollbacks,
                                log,
                                start.len() as int,
                            ) == Some(
                                (
                                    WalkEnd::Leased {
                                        lease,
                                        attempts: listed,
                                        preserved: firmware_preserved,
                                    },
                                    rollbacks,
                                    backend.log().len() as int,
                                ),
                            ));
                        }
                        return Ok(resolution);
                    },
                    Err(record) => {
                        attempts.push(record);
                        if record.outcome == AttemptOutcome::RolledBack {
                            rollbacks = rollbacks.saturating_add(1);
                        }
                    },
                }
            }
            index += 1;
        }
        self.rollbacks = rollbacks;
        let ghost listed = attempts@;
        let exhausted = DispatchError::NoSafeStrategy { attempts };
        assert forall|log: Seq<BackendEvent>| #[trigger]
            crate::trace::continues(log, backend.log()) implies old(self).resolves(
            *self,
            Err(exhausted),
            *fingerprint,
            *decision,
            registry@,
            log,
            zero.len() as int,
            backend.log().len() as int,
        ) by {
            assert(crate::trace::continues(log, start));
            assert(candidates_run(
                secret,
                *fingerprint,
                *decision,
                registry@,
                0,
                Seq::empty(),
                before.rollbacks,
                log,
                start.len() as int,
            ) == Some(
                (
                    WalkEnd::Exhausted { attempts: listed },
                    rollbacks,
                    backend.log().len() as int,
                ),
            ));
        }
        Err(exhausted)
    }
}

/// A transaction that was opened and not leased is rolled back: the attempt
/// ends with one rollback, and its record says whether that succeeded.
pub proof fn law_a_failed_transaction_is_rolled_back(
    case: Candidacy,
    log: Seq<BackendEvent>,
    at: int,
    record: AttemptRecord,
    end: int,
)
    requires
        candidate_run(case, log, at) == Some(
            (Err::<(DriverLease, AttemptRecord, bool), _>(record), end),
        ),
        begin_at(log, at + 1, case) matches Some(Ok(transaction)) && transaction.valid(),
    ensures
        log[end - 2] is Rollback,
        record.outcome == (if log[end - 2]->Rollback_reply is Ok {
            AttemptOutcome::RolledBack
        } else {
            AttemptOutcome::CommitRejected
        }),
        record.stage == log[end - 2]->stage,
{
}

/// An attempt that could not open a transaction rolls nothing back.
pub proof fn law_a_refused_transaction_is_not_rolled_back(
    case: Candidacy,
    log: Seq<BackendEvent>,
    at: int,
)
    requires
        begin_at(log, at + 1, case) matches Some(reply) && (reply is Err || !reply->Ok_0.valid()),
        candidate_run(case, log, at) is Some,
    ensures
        candidate_run(case, log, at) matches Some((Err(record), end)) && record.outcome
            == AttemptOutcome::ActivationRejected && end == at + 3,
{
}

/// A lease is handed out only if it is valid and names the strategy, the
/// fingerprint and the decision it was sought for.
pub proof fn law_a_lease_answers_its_candidacy(case: Candidacy, log: Seq<BackendEvent>, at: int)
    ensures
        candidate_run(case, log, at) matches Some((Ok((lease, record, _)), _)) ==> {
            &&& lease_fits(case, lease)
            &&& record.outcome == AttemptOutcome::Committed
            &&& record.strategy == case.candidate.strategy
        },
{
}

proof fn lemma_walk_leases_are_valid(
    secret: u64,
    fingerprint: GpuFingerprint,
    decision: OracleDecision,
    descriptors: Seq<ShimDescriptor>,
    index: int,
    attempts: Seq<AttemptRecord>,
    rollbacks: u64,
    log: Seq<BackendEvent>,
    at: int,
)
    requires
        0 <= index <= decision.length,
        attempts.len() == index,
    ensures
        candidates_run(
            secret,
            fingerprint,
            decision,
            descriptors,
            index,
            attempts,
            rollbacks,
            log,
            at,
        ) matches Some((WalkEnd::Leased { lease, attempts: listed, .. }, _, _)) ==> {
            &&& lease.valid()
            &&& lease.fingerprint_root == fingerprint.evidence_root
            &&& lease.decision_root == decision.decision_root
            &&& 0 < listed.len() <= decision.length
            &&& listed.last().outcome == AttemptOutcome::Committed
        },
    decreases decision.length - index,
{
    if index < decision.length {
        let candidate = decision.ranked[index];
        match (
            super::registry::described(descriptors, candidate.strategy),
            tick_at(log, at),
        ) {
            (Some(descriptor), Some(started)) => {
                if !candidate.admissible || !descriptor.takes(
                    fingerprint,
                    decision.confidence_q16,
                ) {
                    if let Some(ended) = tick_at(log, at + 1) {
                        lemma_walk_leases_are_valid(
                            secret,
                            fingerprint,
                            decision,
                            descriptors,
                            index + 1,
                            attempts.push(
                                skip_record_of(
                                    secret,
                                    candidate,
                                    decision.confidence_q16,
                                    started,
                                    ended,
                                ),
                            ),
                            rollbacks,
                            log,
                            at + 2,
                        );
                    }
                } else {
                    let case = Candidacy {
                        secret,
                        fingerprint: &fingerprint,
                        decision: &decision,
                        candidate,
                        descriptor: &descriptor,
                    };
                    law_a_lease_answers_its_candidacy(case, log, at + 1);
                    if let Some((Err(record), end)) = candidate_run(case, log, at + 1) {
                        lemma_walk_leases_are_valid(
                            secret,
                            fingerprint,
                            decision,
                            descriptors,
                            index + 1,
                            attempts.push(record),
                            counted_rollback(rollbacks, record),
                            log,
                            end,
                        );
                    }
                }
            },
            _ => {},
        }
    }
}

/// A resolution that a dispatcher hands out verifies under its secret, names
/// the fingerprint and decision it was asked about, and ends its attempts with
/// the committed one.
pub proof fn law_a_resolution_verifies(
    before: DriverDispatcher,
    after: DriverDispatcher,
    resolution: DispatchResolution,
    fingerprint: GpuFingerprint,
    decision: OracleDecision,
    descriptors: Seq<ShimDescriptor>,
    log: Seq<BackendEvent>,
    start: int,
    end: int,
)
    requires
        before.resolves(
            after,
            Ok(resolution),
            fingerprint,
            decision,
            descriptors,
            log,
            start,
            end,
        ),
    ensures
        resolution.verified(before.secret),
        resolution.lease.fingerprint_root == fingerprint.evidence_root,
        resolution.lease.decision_root == decision.decision_root,
        resolution.attempts@.last().outcome == AttemptOutcome::Committed,
{
    lemma_walk_leases_are_valid(
        before.secret,
        fingerprint,
        decision,
        descriptors,
        0,
        Seq::empty(),
        before.rollbacks,
        log,
        start + 1,
    );
}

/// A decision that was not sealed for the dispatcher is refused before any
/// exchange: the dispatcher stays as it was, and no exchange is read.
pub proof fn law_a_corrupt_decision_reaches_no_backend(
    before: DriverDispatcher,
    after: DriverDispatcher,
    result: Result<DispatchResolution, DispatchError>,
    fingerprint: GpuFingerprint,
    decision: OracleDecision,
    descriptors: Seq<ShimDescriptor>,
    log: Seq<BackendEvent>,
    start: int,
    end: int,
)
    requires
        before.resolves(
            after,
            result,
            fingerprint,
            decision,
            descriptors,
            log,
            start,
            end,
        ),
        !decision.verified(before.decision_secret, before.model),
    ensures
        result == Err::<DispatchResolution, _>(DispatchError::CorruptDecision),
        end == start,
        after == before,
{
}

} // verus!
