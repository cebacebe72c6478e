//! Laws of how drivers are tried and what is reported of it.

use vstd::prelude::*;

use crate::drivernet::dispatch::ActivationReceipt;
use crate::drivernet::dispatch::Attempt;
use crate::drivernet::dispatch::AttemptOutcome;
use crate::drivernet::dispatch::AttemptRecord;
use crate::drivernet::dispatch::BackendEvent;
use crate::drivernet::dispatch::BackendFault;
use crate::drivernet::dispatch::Candidacy;
use crate::drivernet::dispatch::DispatchError;
use crate::drivernet::dispatch::DispatchResolution;
use crate::drivernet::dispatch::DispatchStage;
use crate::drivernet::dispatch::DriverLease;
use crate::drivernet::dispatch::FaultCode;
use crate::drivernet::dispatch::HealthReceipt;
use crate::drivernet::dispatch::ProbeObservation;
use crate::drivernet::dispatch::ProbeTransaction;
use crate::drivernet::dispatch::WalkEnd;
use crate::drivernet::fingerprint::FingerprintSummary;
use crate::drivernet::fingerprint::GpuFingerprint;
use crate::drivernet::fingerprint::TOPOLOGY_BOOT_DISPLAY;
use crate::drivernet::fingerprint::TOPOLOGY_INTERNAL_PANEL;
use crate::drivernet::model::DriverStrategy;
use crate::drivernet::model::OracleDecision;
use crate::drivernet::model::RankedCandidate;
use crate::drivernet::platform::BrokerTransaction;
use crate::drivernet::platform::IsolationReceipt;
use crate::drivernet::registry::ProbeStep;
use crate::drivernet::registry::ShimDescriptor;
use crate::drivernet::telemetry::DriverNetEvent;
use crate::drivernet::DriverNetSecrets;
use crate::drivernet::GpuResolution;
use crate::drivernet::GpuResolutionStatus;

verus! {

/// Stages, outcomes and faults are numbered in a fixed order.
pub proof fn law_stages_outcomes_and_faults_are_numbered()
    ensures
        DispatchStage::CandidateGate.code() == 1,
        DispatchStage::CandidateGate.code() < DispatchStage::BeginTransaction.code()
            < DispatchStage::Probe.code() < DispatchStage::Activate.code()
            < DispatchStage::HealthCheck.code() < DispatchStage::Commit.code()
            < DispatchStage::Rollback.code() < DispatchStage::Complete.code(),
        DispatchStage::Complete.code() == 8,
        AttemptOutcome::Skipped.code() == 1,
        AttemptOutcome::Skipped.code() < AttemptOutcome::ProbeRejected.code()
            < AttemptOutcome::ActivationRejected.code() < AttemptOutcome::HealthRejected.code()
            < AttemptOutcome::CommitRejected.code() < AttemptOutcome::RolledBack.code()
            < AttemptOutcome::Committed.code(),
        AttemptOutcome::Committed.code() == 7,
        FaultCode::Clear.code() == 0,
        FaultCode::Clear.code() < FaultCode::CandidateInadmissible.code()
            < FaultCode::DescriptorRejected.code() < FaultCode::TransactionRejected.code()
            < FaultCode::ProbeTimeout.code() < FaultCode::ProbeFault.code()
            < FaultCode::MissingProbeEvidence.code() < FaultCode::ActivationTimeout.code()
            < FaultCode::ActivationFault.code() < FaultCode::HealthTimeout.code()
            < FaultCode::HealthFault.code() < FaultCode::Unhealthy.code()
            < FaultCode::CommitFault.code() < FaultCode::RollbackFault.code()
            < FaultCode::DecisionCorrupt.code() < FaultCode::FingerprintMismatch.code()
            < FaultCode::NoSafeStrategy.code() < FaultCode::TimeRegression.code()
            < FaultCode::RegistryFault.code(),
        FaultCode::RegistryFault.code() == 18,
{
}

proof fn lemma_evidence_bits(mask: u32, bit: u32, required: u32)
    by (bit_vector)
    ensures
        (mask | bit) & mask == mask,
        (mask | bit) & bit == bit,
        (mask | bit) & !(mask | bit) == 0,
        mask & required == required <==> required & !mask == 0,
        (required & !mask) & mask == 0,
        (required & !mask) & required == required & !mask,
        (mask | bit) & !mask & !bit == 0,
        crate::drivernet::registry::SHIM_FLAG_PRESERVE_FIRMWARE_DISPLAY == 1,
        TOPOLOGY_BOOT_DISPLAY == 1,
        TOPOLOGY_INTERNAL_PANEL == 2,
{
}

/// An observation that answers a step is of its kind, shows all its evidence and
/// has a root.
pub proof fn law_an_answer_shows_the_evidence_asked_for(
    step: ProbeStep,
    observation: ProbeObservation,
)
    ensures
        crate::drivernet::dispatch::observation_answers(step, observation) <==>
            observation.semantic == step.semantic && step.evidence_bit & !observation.evidence_bit
            == 0 && observation.root != 0,
{
    lemma_evidence_bits(observation.evidence_bit, 0, step.evidence_bit);
}

/// Observing adds the evidence shown to what was there, and nothing else
/// changes but the running root.
pub proof fn law_observing_adds_evidence(
    transaction: ProbeTransaction,
    observation: ProbeObservation,
)
    ensures
        ({
            let after = crate::drivernet::dispatch::observed(transaction, observation);
            &&& after.evidence_mask & transaction.evidence_mask == transaction.evidence_mask
            &&& after.evidence_mask & observation.evidence_bit == observation.evidence_bit
            &&& after.evidence_mask & !transaction.evidence_mask & !observation.evidence_bit == 0
            &&& after.token == transaction.token
            &&& after.strategy == transaction.strategy
            &&& after.fingerprint_root == transaction.fingerprint_root
            &&& after.started_tick == transaction.started_tick
            &&& after.deadline_tick == transaction.deadline_tick
            &&& after.firmware_preserved == transaction.firmware_preserved
            &&& after.backend_state == transaction.backend_state
        }),
{
    lemma_evidence_bits(transaction.evidence_mask, observation.evidence_bit, 0);
}

/// Evidence suffices when nothing that is required is missing; what is missing
/// is named exactly.
pub proof fn law_missing_evidence_is_named(case: Candidacy, transaction: ProbeTransaction)
    ensures
        crate::drivernet::dispatch::evidence_fault(case, transaction) is None <==>
            case.descriptor.program.required_evidence & !transaction.evidence_mask == 0,
        crate::drivernet::dispatch::evidence_fault(case, transaction) matches Some(fault)
            ==> fault.code is MissingProbeEvidence && fault.detail != 0 && fault.detail
            <= u32::MAX && (fault.detail as u32) & transaction.evidence_mask == 0 && (
        fault.detail as u32) & case.descriptor.program.required_evidence == fault.detail as u32,
{
    lemma_evidence_bits(
        transaction.evidence_mask,
        0,
        case.descriptor.program.required_evidence,
    );
}

/// A program that succeeds asked every step in order, and the answer to each
/// came by its own deadline and by that of the program.
pub proof fn law_a_program_answers_every_step(
    case: Candidacy,
    steps: Seq<ProbeStep>,
    index: int,
    deadline: u64,
    transaction: ProbeTransaction,
    observations: Seq<ProbeObservation>,
    log: Seq<BackendEvent>,
    at: int,
    answers: Seq<ProbeObservation>,
    after: ProbeTransaction,
    end: int,
)
    requires
        0 <= index <= steps.len(),
        observations.len() == index,
        crate::drivernet::dispatch::program_run(
            case,
            steps,
            index,
            deadline,
            transaction,
            observations,
            log,
            at,
        ) == Some((Ok::<_, BackendFault>(answers), after, end)),
    ensures
        answers.len() == steps.len(),
        forall|i: int| 0 <= i < index ==> (#[trigger] answers[i]) == observations[i],
        forall|i: int|
            #![trigger answers[i]]
            index <= i < steps.len() ==> answers[i].semantic == steps[i].semantic
                && steps[i].evidence_bit & !answers[i].evidence_bit == 0 && answers[i].root != 0,
        index < steps.len() ==> end > at && (log[end - 1] is Tick && log[end - 1]->Tick_0
            <= deadline),
    decreases steps.len() - index,
{
    if index < steps.len() {
        let start = crate::drivernet::dispatch::tick_at(log, at)->0;
        let step_deadline = start.saturating_add(steps[index].maximum_ticks as u64);
        let (reply, later, next) = crate::drivernet::dispatch::step_run(
            case,
            steps[index],
            0,
            step_deadline,
            deadline,
            transaction,
            log,
            at + 1,
        ).unwrap();
        let observation = reply->Ok_0;
        lemma_a_step_is_answered(
            case,
            steps[index],
            0,
            step_deadline,
            deadline,
            transaction,
            log,
            at + 1,
            observation,
            later,
            next,
        );
        law_an_answer_shows_the_evidence_asked_for(steps[index], observation);
        law_a_program_answers_every_step(
            case,
            steps,
            index + 1,
            deadline,
            later,
            observations.push(observation),
            log,
            next + 1,
            answers,
            after,
            end,
        );
        assert(answers[index] == observations.push(observation)[index]);
        assert forall|i: int| 0 <= i < index implies (#[trigger] answers[i]) == observations[i] by {
            assert(observations.push(observation)[i] == observations[i]);
        }
    }
}

proof fn lemma_a_step_is_answered(
    case: Candidacy,
    step: ProbeStep,
    attempt: int,
    step_deadline: u64,
    program_deadline: u64,
    transaction: ProbeTransaction,
    log: Seq<BackendEvent>,
    at: int,
    observation: ProbeObservation,
    after: ProbeTransaction,
    end: int,
)
    requires
        crate::drivernet::dispatch::step_run(
            case,
            step,
            attempt,
            step_deadline,
            program_deadline,
            transaction,
            log,
            at,
        ) == Some((Ok::<_, BackendFault>(observation), after, end)),
    ensures
        crate::drivernet::dispatch::observation_answers(step, observation),
        end > at,
    decreases step.retries - attempt,
{
    let (later, reply) = crate::drivernet::dispatch::probe_at(
        log,
        at,
        case,
        transaction,
        step,
        attempt,
    )->0;
    if reply is Err {
        lemma_a_step_is_answered(
            case,
            step,
            attempt + 1,
            step_deadline,
            program_deadline,
            later,
            log,
            at + 2,
            observation,
            after,
            end,
        );
    }
}

/// A step whose answer comes late, after its own ticks or those of the program,
/// fails with a timeout that tells when.
pub proof fn law_a_late_step_times_out(
    case: Candidacy,
    steps: Seq<ProbeStep>,
    index: int,
    deadline: u64,
    transaction: ProbeTransaction,
    observations: Seq<ProbeObservation>,
    log: Seq<BackendEvent>,
    at: int,
    start: u64,
    observation: ProbeObservation,
    after: ProbeTransaction,
    end: int,
    now: u64,
)
    requires
        0 <= index < steps.len(),
        crate::drivernet::dispatch::tick_at(log, at) == Some(start),
        start + steps[index].maximum_ticks <= u64::MAX,
        crate::drivernet::dispatch::step_run(
            case,
            steps[index],
            0,
            (start + steps[index].maximum_ticks) as u64,
            deadline,
            transaction,
            log,
            at + 1,
        ) == Some((Ok::<_, BackendFault>(observation), after, end)),
        crate::drivernet::dispatch::tick_at(log, end) == Some(now),
    ensures
        now > start + steps[index].maximum_ticks || now > deadline <==>
            crate::drivernet::dispatch::program_run(
            case,
            steps,
            index,
            deadline,
            transaction,
            observations,
            log,
            at,
        ) == Some(
            (
                Err::<Seq<ProbeObservation>, _>(
                    BackendFault { code: FaultCode::ProbeTimeout, retryable: false, detail: now },
                ),
                after,
                end + 1,
            ),
        ) && (now > start + steps[index].maximum_ticks || now > deadline),
{
}

/// An activated driver was activated within its budget for the strategy asked
/// for, found healthy within its budget, and committed to a lease that names the
/// fingerprint and the decision.
pub proof fn law_a_lease_was_activated_and_healthy_in_time(
    case: Candidacy,
    started: u64,
    transaction: ProbeTransaction,
    log: Seq<BackendEvent>,
    at: int,
    lease: DriverLease,
    record: AttemptRecord,
    preserved: bool,
    end: int,
)
    requires
        crate::drivernet::dispatch::activation_run(case, started, transaction, log, at) == Some(
            (Ok::<_, AttemptRecord>((lease, record, preserved)), end),
        ),
    ensures
        end == at + 7,
        log[at] is Tick,
        log[at + 1] is Activate,
        log[at + 2] is Tick,
        log[at + 2]->Tick_0 <= log[at]->Tick_0 + case.descriptor.activation_budget_ticks,
        log[at + 1]->Activate_reply is Ok,
        log[at + 1]->Activate_reply->Ok_0.strategy == case.descriptor.strategy,
        log[at + 1]->Activate_reply->Ok_0.token != 0,
        log[at + 1]->Activate_reply->Ok_0.transport_root != 0,
        log[at + 1]->Activate_reply->Ok_0.activation_epoch != 0,
        log[at + 3] is Tick,
        log[at + 4] is Health,
        log[at + 4]->Health_activation == log[at + 1]->Activate_reply->Ok_0,
        log[at + 4]->Health_reply is Ok,
        log[at + 4]->Health_reply->Ok_0.healthy,
        log[at + 5] is Tick,
        log[at + 5]->Tick_0 <= log[at + 3]->Tick_0 + case.descriptor.health_budget_ticks,
        log[at + 6] is Commit,
        log[at + 6]->Commit_reply == Ok::<_, BackendFault>(lease),
        lease.strategy == case.descriptor.strategy,
        lease.fingerprint_root == case.fingerprint.evidence_root,
        lease.decision_root == case.decision.decision_root,
        lease.handle != 0,
        lease.generation != 0,
        lease.committed_tick != 0,
        record.strategy == case.candidate.strategy,
        record.stage is Complete,
        record.outcome is Committed,
        record.fault is Clear,
        record.score == case.candidate.score,
        record.confidence_q16 == case.decision.confidence_q16,
        record.started_tick == started,
        record.ended_tick == lease.committed_tick,
        record.detail == lease.handle,
        preserved == log[at + 6]->Commit_after.firmware_preserved,
{
}

/// An attempt that is given up is recorded with its stage, the fault that ended
/// it and whether the rollback went well.
pub proof fn law_an_abandoned_attempt_is_recorded(
    case: Candidacy,
    started: u64,
    stage: DispatchStage,
    transaction: ProbeTransaction,
    fault: BackendFault,
    log: Seq<BackendEvent>,
    at: int,
    record: AttemptRecord,
    end: int,
)
    requires
        crate::drivernet::dispatch::abandon_run(
            case,
            started,
            stage,
            transaction,
            fault,
            log,
            at,
        ) == Some((Err::<(DriverLease, AttemptRecord, bool), _>(record), end)),
    ensures
        end == at + 2,
        log[at] is Rollback,
        log[at]->Rollback_before == transaction,
        log[at + 1] is Tick,
        record.ended_tick == log[at + 1]->Tick_0,
        record.started_tick == started,
        record.stage == stage,
        record.strategy == case.candidate.strategy,
        record.score == case.candidate.score,
        record.evidence_mask == log[at]->Rollback_after.evidence_mask,
        log[at]->Rollback_reply is Ok ==> record.outcome is RolledBack && record.fault
            == fault.code && record.detail == fault.detail,
        log[at]->Rollback_reply is Err ==> record.outcome is CommitRejected
            && record.fault is RollbackFault && record.detail
            == log[at]->Rollback_reply->Err_0.detail,
{
}

/// What an attempt at one candidate comes to.
proof fn lemma_an_attempt_is_of_its_candidate(
    case: Candidacy,
    log: Seq<BackendEvent>,
    at: int,
    attempt: Attempt,
    end: int,
)
    requires
        crate::drivernet::dispatch::candidate_run(case, log, at) == Some((attempt, end)),
    ensures
        attempt matches Err(record) ==> record.strategy == case.candidate.strategy
            && !(record.outcome is Committed),
        attempt matches Ok((lease, record, _)) ==> record.strategy == case.candidate.strategy
            && record.outcome is Committed && lease.strategy == case.descriptor.strategy
            && lease.fingerprint_root == case.fingerprint.evidence_root,
{
}

/// Candidates are tried in the order of the decision, each once. Where the walk
/// ends with a lease, the last attempt and no other is committed; where it is
/// exhausted, every candidate was tried and none is.
pub proof fn law_candidates_are_tried_in_order(
    secret: u64,
    fingerprint: GpuFingerprint,
    decision: OracleDecision,
    descriptors: Seq<ShimDescriptor>,
    index: int,
    attempts: Seq<AttemptRecord>,
    rollbacks: u64,
    log: Seq<BackendEvent>,
    at: int,
    ended: WalkEnd,
    counted: u64,
    end: int,
)
    requires
        0 <= index <= decision.length,
        attempts.len() == index,
        forall|i: int|
            0 <= i < index ==> (#[trigger] attempts[i]).strategy == decision.ranked[i].strategy
                && !(attempts[i].outcome is Committed),
        crate::drivernet::dispatch::candidates_run(
            secret,
            fingerprint,
            decision,
            descriptors,
            index,
            attempts,
            rollbacks,
            log,
            at,
        ) == Some((ended, counted, end)),
    ensures
        ended matches WalkEnd::Leased { lease, attempts: tried, preserved: _ } ==> {
            &&& index < tried.len() <= decision.length
            &&& forall|i: int|
                #![trigger tried[i]]
                0 <= i < tried.len() ==> tried[i].strategy == decision.ranked[i].strategy && (
                tried[i].outcome is Committed <==> i == tried.len() - 1)
            &&& decision.ranked[tried.len() - 1].admissible
            &&& lease.strategy == decision.ranked[tried.len() - 1].strategy
            &&& lease.fingerprint_root == fingerprint.evidence_root
        },
        ended matches WalkEnd::Exhausted { attempts: tried } ==> tried.len() == decision.length
            && forall|i: int|
            #![trigger tried[i]]
            0 <= i < tried.len() ==> tried[i].strategy == decision.ranked[i].strategy
                && !(tried[i].outcome is Committed),
        counted >= rollbacks,
        counted <= rollbacks + (decision.length - index),
    decreases decision.length - index,
{
    if index < decision.length {
        let candidate = decision.ranked[index];
        if let Some(descriptor) = crate::drivernet::registry::described(
            descriptors,
            candidate.strategy,
        ) {
            crate::laws::discovery::law_a_strategy_is_described_once(
                descriptors,
                candidate.strategy,
            );
            let started = crate::drivernet::dispatch::tick_at(log, at)->0;
            if !candidate.admissible || !descriptor.takes(fingerprint, decision.confidence_q16) {
                let skipped = crate::drivernet::dispatch::skip_record_of(
                    secret,
                    candidate,
                    decision.confidence_q16,
                    started,
                    crate::drivernet::dispatch::tick_at(log, at + 1)->0,
                );
                law_candidates_are_tried_in_order(
                    secret,
                    fingerprint,
                    decision,
                    descriptors,
                    index + 1,
                    attempts.push(skipped),
                    rollbacks,
                    log,
                    at + 2,
                    ended,
                    counted,
                    end,
                );
            } else {
                let case = Candidacy {
                    secret,
                    fingerprint: &fingerprint,
                    decision: &decision,
                    candidate,
                    descriptor: &descriptor,
                };
                let (attempt, next) = crate::drivernet::dispatch::candidate_run(
                    case,
                    log,
                    at + 1,
                )->0;
                lemma_an_attempt_is_of_its_candidate(case, log, at + 1, attempt, next);
                if let Err(record) = attempt {
                    law_candidates_are_tried_in_order(
                        secret,
                        fingerprint,
                        decision,
                        descriptors,
                        index + 1,
                        attempts.push(record),
                        crate::drivernet::dispatch::counted_rollback(rollbacks, record),
                        log,
                        next,
                        ended,
                        counted,
                        end,
                    );
                }
            }
        }
    }
}

/// A candidate that is not tried is recorded as inadmissible if it is, and
/// otherwise as refused by its driver.
pub proof fn law_a_skipped_candidate_is_recorded(
    secret: u64,
    candidate: RankedCandidate,
    confidence_q16: u16,
    started: u64,
    ended: u64,
)
    ensures
        ({
            let record = crate::drivernet::dispatch::skip_record_of(
                secret,
                candidate,
                confidence_q16,
                started,
                ended,
            );
            &&& record.stage is CandidateGate
            &&& record.outcome is Skipped
            &&& record.fault is CandidateInadmissible <==> !candidate.admissible
            &&& record.fault is DescriptorRejected <==> candidate.admissible
            &&& record.detail == candidate.gate_reason
            &&& record.score == candidate.score
            &&& record.confidence_q16 == confidence_q16
            &&& record.started_tick == started
            &&& record.ended_tick == ended
            &&& record.evidence_mask == 0
        }),
{
}

/// Only rollbacks are counted as such, one by one.
pub proof fn law_rollbacks_are_counted(rollbacks: u64, record: AttemptRecord)
    requires
        rollbacks < u64::MAX,
    ensures
        crate::drivernet::dispatch::counted_rollback(rollbacks, record) - rollbacks == (
        if record.outcome is RolledBack {
            1int
        } else {
            0
        }),
{
}

/// A transaction is refused where it was opened for another fingerprint or
/// strategy, or gave up a usable framebuffer that its driver must keep.
pub proof fn law_a_transaction_must_be_for_its_case(case: Candidacy, transaction: ProbeTransaction)
    ensures
        crate::drivernet::dispatch::begin_fault(case, transaction) is None ==>
            transaction.fingerprint_root == case.fingerprint.evidence_root && transaction.strategy
            == case.candidate.strategy && (case.descriptor.flags % 2 == 1
            && case.fingerprint.firmware_framebuffer.usable() ==> transaction.firmware_preserved),
        transaction.fingerprint_root == case.fingerprint.evidence_root && transaction.strategy
            == case.candidate.strategy && transaction.firmware_preserved
            ==> crate::drivernet::dispatch::begin_fault(case, transaction) is None,
{
    crate::bits::lemma_word32(case.descriptor.flags);
    lemma_evidence_bits(0, 0, 0);
}

/// A lease must be complete: a handle, a generation, all roots and a tick.
pub proof fn law_leases_are_complete(lease: DriverLease)
    ensures
        lease.valid() <==> lease.handle > 0 && lease.generation > 0 && lease.fingerprint_root > 0
            && lease.decision_root > 0 && lease.activation_root > 0 && lease.health_root > 0
            && lease.committed_tick > 0,
{
}

/// An opened transaction lasts as long as all the budgets of its driver
/// together, and hands isolation and broker on as they came.
pub proof fn law_an_opened_transaction_spans_all_budgets(
    token: u64,
    now: u64,
    fingerprint: GpuFingerprint,
    descriptor: ShimDescriptor,
    decision: OracleDecision,
    isolation: IsolationReceipt,
    broker: BrokerTransaction,
)
    ensures
        ({
            let opened = crate::drivernet::platform::opened_transaction(
                token,
                now,
                fingerprint,
                descriptor,
                decision,
                isolation,
                broker,
            );
            let span = descriptor.program.maximum_total_ticks + descriptor.activation_budget_ticks
                + descriptor.health_budget_ticks;
            &&& opened.started_tick == now
            &&& now + span <= u64::MAX ==> opened.deadline_tick - opened.started_tick == span
            &&& now + span > u64::MAX ==> opened.deadline_tick == u64::MAX
            &&& opened.token == token
            &&& opened.fingerprint_root == fingerprint.evidence_root
            &&& opened.strategy == descriptor.strategy
            &&& opened.evidence_mask == 0
            &&& crate::drivernet::platform::decode_isolation(&opened) == isolation
            &&& crate::drivernet::platform::decode_broker(&opened).token == broker.token
            &&& forall|i: int|
                0 <= i < 4 ==> (#[trigger] crate::drivernet::platform::decode_broker(
                    &opened,
                ).state[i]) == broker.state[i]
        }),
{
}

/// What a broker hands back replaces its part of a transaction and leaves the
/// part of the isolation.
pub proof fn law_a_broker_changes_only_its_part(
    transaction: ProbeTransaction,
    broker: BrokerTransaction,
)
    ensures
        ({
            let after = crate::drivernet::platform::encoded_broker(transaction, broker);
            &&& crate::drivernet::platform::decode_isolation(&after)
                == crate::drivernet::platform::decode_isolation(&transaction)
            &&& crate::drivernet::platform::decode_broker(&after).token == broker.token
            &&& forall|i: int|
                0 <= i < 4 ==> (#[trigger] crate::drivernet::platform::decode_broker(
                    &after,
                ).state[i]) == broker.state[i]
            &&& after.token == transaction.token
            &&& after.evidence_mask == transaction.evidence_mask
            &&& after.deadline_tick == transaction.deadline_tick
        }),
{
}

/// A committed lease carries what was granted, activated, found healthy and
/// decided, and is never of tick zero.
pub proof fn law_a_committed_lease_carries_its_evidence(
    transaction: ProbeTransaction,
    activation: ActivationReceipt,
    health: HealthReceipt,
    decision: OracleDecision,
    granted: (u64, u32),
    now: u64,
)
    ensures
        ({
            let lease = crate::drivernet::platform::committed_lease(
                transaction,
                activation,
                health,
                decision,
                granted,
                now,
            );
            &&& (lease.handle, lease.generation) == granted
            &&& lease.strategy == transaction.strategy
            &&& lease.fingerprint_root == transaction.fingerprint_root
            &&& lease.decision_root == decision.decision_root
            &&& lease.health_root == health.root
            &&& lease.framebuffer_object == activation.framebuffer_object
            &&& lease.committed_tick >= 1
            &&& now >= 1 ==> lease.committed_tick == now
            &&& lease.activation_root == crate::seal::mix_of(
                activation.transport_root,
                activation.activation_epoch,
            )
        }),
{
}

/// A clock that steps back is refused and keeps its last tick; one that does not
/// is followed.
pub proof fn law_clocks_do_not_step_back(last: u64, now: u64)
    ensures
        crate::drivernet::platform::tick_outcome(last, now) is Ok <==> now >= last,
        crate::drivernet::platform::tick_outcome(last, now) matches Ok(tick) ==> tick == now,
        crate::drivernet::platform::tick_outcome(last, now) matches Err(fault)
            ==> fault.code is TimeRegression && fault.detail == now && !fault.retryable,
        crate::drivernet::platform::ticked(last, now) >= last,
        now >= last ==> crate::drivernet::platform::ticked(last, now) == now,
        now < last ==> crate::drivernet::platform::ticked(last, now) == last,
{
}

/// Secrets are usable when none is zero and no two are alike.
pub proof fn law_secrets_are_all_different(secrets: DriverNetSecrets)
    ensures
        ({
            let all = seq![
                0u64,
                secrets.fingerprint,
                secrets.oracle,
                secrets.dispatch,
                secrets.telemetry,
            ];
            secrets.valid() <==> forall|i: int, j: int|
                0 <= i < j < 5 ==> #[trigger] all[i] != #[trigger] all[j]
        }),
{
    let all = seq![
        0u64,
        secrets.fingerprint,
        secrets.oracle,
        secrets.dispatch,
        secrets.telemetry,
    ];
    if forall|i: int, j: int| 0 <= i < j < 5 ==> #[trigger] all[i] != #[trigger] all[j] {
        assert(all[0] != all[1] && all[0] != all[2] && all[0] != all[3] && all[0] != all[4]);
        assert(all[1] != all[2] && all[1] != all[3] && all[1] != all[4]);
        assert(all[2] != all[3] && all[2] != all[4] && all[3] != all[4]);
    }
}

/// A display counts as available when its driver did not fail and it has a
/// framebuffer.
pub proof fn law_when_a_display_is_available(resolution: GpuResolution)
    ensures
        resolution.display_available() <==> (resolution.status is Committed
            || resolution.status is Quarantined) && resolution.framebuffer_object > 0,
        GpuResolutionStatus::Committed.code() == 0,
        GpuResolutionStatus::Quarantined.code() == 1,
        GpuResolutionStatus::Failed.code() == 2,
{
}

/// A resolution is kept with what its lease granted, and is quarantined exactly
/// where quarantine drives it.
pub proof fn law_a_kept_resolution_is_its_lease(
    fingerprint: GpuFingerprint,
    decision: OracleDecision,
    resolution: DispatchResolution,
    fault: FaultCode,
)
    ensures
        ({
            let kept = crate::drivernet::compacted(fingerprint, decision, resolution);
            &&& kept.fingerprint == fingerprint
            &&& kept.strategy == resolution.active_strategy
            &&& kept.status is Quarantined <==> resolution.active_strategy is Quarantine
            &&& kept.status is Committed <==> !(resolution.active_strategy is Quarantine)
            &&& kept.confidence_q16 == decision.confidence_q16
            &&& kept.framebuffer_object == resolution.lease.framebuffer_object
            &&& kept.driver_handle == resolution.lease.handle
            &&& kept.driver_generation == resolution.lease.generation
            &&& kept.decision_root == decision.decision_root
            &&& kept.resolution_root == resolution.resolution_root
            &&& kept.fault is Clear
        }),
        ({
            let failed = crate::drivernet::failed_resolution(fingerprint, &decision, fault);
            &&& failed.status is Failed
            &&& failed.strategy is Quarantine
            &&& failed.fault == fault
            &&& failed.framebuffer_object == 0
            &&& failed.driver_handle == 0
            &&& failed.decision_root == decision.decision_root
            &&& !failed.display_available()
        }),
{
}

/// Errors of dispatch come back as their own faults.
pub proof fn law_dispatch_errors_keep_their_meaning(error: DispatchError)
    ensures
        error is CorruptDecision <==> crate::drivernet::dispatch_fault(&error) is DecisionCorrupt,
        error is FingerprintMismatch <==> crate::drivernet::dispatch_fault(
            &error,
        ) is FingerprintMismatch,
        error is Registry <==> crate::drivernet::dispatch_fault(&error) is RegistryFault,
        error is TimeRegression <==> crate::drivernet::dispatch_fault(&error) is TimeRegression,
        error is NoSafeStrategy <==> crate::drivernet::dispatch_fault(&error) is NoSafeStrategy,
{
}

/// The boot display outweighs everything else, then an internal panel; between
/// displays alike in both, confidence and the weight of the strategy decide.
pub proof fn law_the_boot_display_weighs_most(one: GpuResolution, other: GpuResolution)
    ensures
        ({
            let (flags, others) = (
                one.fingerprint.topology_flags,
                other.fingerprint.topology_flags,
            );
            let (score, against) = (
                crate::drivernet::primary_score_of(one),
                crate::drivernet::primary_score_of(other),
            );
            &&& flags % 2 == 1 && others % 2 == 0 ==> score > against
            &&& flags % 2 == others % 2 && flags / 2 % 2 == 1 && others / 2 % 2 == 0 ==> score
                > against
            &&& flags == others ==> score - against == one.confidence_q16 - other.confidence_q16
                + crate::drivernet::strategy_primary_weight(one.strategy)
                - crate::drivernet::strategy_primary_weight(other.strategy)
            &&& flags % 4 == 3 && others % 4 == 0 && one.strategy == other.strategy
                && one.confidence_q16 == other.confidence_q16 ==> score - against == 1_500_000
            &&& flags % 4 == 1 && others % 4 == 0 && one.strategy == other.strategy
                && one.confidence_q16 == other.confidence_q16 ==> score - against == 1_000_000
        }),
{
    lemma_evidence_bits(0, 0, 0);
    let (flags, others) = (one.fingerprint.topology_flags, other.fingerprint.topology_flags);
    assert(flags & 1 == flags % 2 && flags & 2 == flags / 2 % 2 * 2) by {
        crate::bits::lemma_word32(flags);
    }
    assert(others & 1 == others % 2 && others & 2 == others / 2 % 2 * 2) by {
        crate::bits::lemma_word32(others);
    }
}

/// A driver for the hardware itself weighs 100000, one for a virtual device
/// 80000, the firmware framebuffer 40000 and quarantine nothing.
pub proof fn law_strategies_weigh_by_kind(strategy: DriverStrategy)
    ensures
        crate::drivernet::strategy_primary_weight(strategy) == (if strategy.index() <= 2 {
            100_000int
        } else if strategy.index() <= 4 {
            80_000
        } else if strategy.index() == 5 {
            40_000
        } else {
            0
        }),
{
}

/// One more resolution counts once, under its status and kind.
pub proof fn law_resolutions_are_counted_once(
    resolutions: Seq<GpuResolution>,
    resolution: GpuResolution,
    status: GpuResolutionStatus,
    firmware: bool,
)
    ensures
        crate::drivernet::resolution_count(resolutions.push(resolution), status, firmware)
            - crate::drivernet::resolution_count(resolutions, status, firmware) == (
        if resolution.status == status && (resolution.strategy is FirmwareFramebuffer) == firmware {
            1int
        } else {
            0
        }),
        crate::drivernet::resolution_count(Seq::empty(), status, firmware) == 0,
{
    assert(resolutions.push(resolution).drop_last() =~= resolutions);
}

/// An overflow is told with the functions listed and found, faults with their
/// number, and the primary with its framebuffer.
pub proof fn law_summary_events_tell_their_numbers(
    secret: u64,
    tick: u64,
    listed: int,
    summary: FingerprintSummary,
    primary: GpuResolution,
)
    requires
        0 <= listed <= u64::MAX,
    ensures
        ({
            let event = crate::drivernet::overflow_event_of(secret, tick, listed, summary);
            &&& event.kind is InventoryOverflow
            &&& event.severity == 4
            &&& event.data0 == listed
            &&& event.data1 == summary.display_functions
            &&& event.tick == tick
        }),
        ({
            let event = crate::drivernet::faults_event_of(secret, tick, summary);
            &&& event.kind is ConfigurationIncomplete
            &&& event.severity == 3
            &&& event.data0 == summary.configuration_faults
            &&& event.data1 == summary.display_functions
            &&& event.tick == tick
        }),
        ({
            let event = crate::drivernet::primary_event_of(secret, tick, primary);
            &&& event.kind is PrimarySelected
            &&& event.severity == 0 <==> primary.display_available()
            &&& event.severity <= 1
            &&& event.strategy == primary.strategy
            &&& event.data0 == primary.framebuffer_object
            &&& event.data1 == primary.resolution_root
            &&& event.decision_root == primary.decision_root
            &&& event.fingerprint_root == primary.fingerprint.evidence_root
        }),
{
}

/// Before any device, an overflow is told first and faults second, each if there
/// are any.
pub proof fn law_what_is_told_before_any_device(
    secret: u64,
    listed: int,
    summary: FingerprintSummary,
    log: Seq<BackendEvent>,
    at: int,
    told: Seq<DriverNetEvent>,
    end: int,
)
    requires
        crate::drivernet::opening_run(secret, listed, summary, log, at) == Some((told, end)),
    ensures
        end - at == told.len(),
        told.len() == (if summary.inventory_overflowed {
            1int
        } else {
            0
        }) + (if summary.configuration_faults != 0 {
            1int
        } else {
            0
        }),
        summary.inventory_overflowed ==> told[0].kind is InventoryOverflow,
        summary.configuration_faults != 0 ==> told.last().kind is ConfigurationIncomplete,
{
}

/// How the ledger and the oracle see an event: whom it concerns, how severe it
/// is, which strategy it names and, for the oracle, 0xd100 plus its number.
pub proof fn law_observers_see_the_same_event(event: DriverNetEvent)
    ensures
        ({
            let entry = crate::drivernet::blacklab_observer::ledger_event(event);
            let judged = crate::drivernet::blacklab_observer::oracle_event(event);
            &&& entry.tick == event.tick
            &&& judged.tick == event.tick
            &&& entry.subject == event.address
            &&& judged.subject == event.address
            &&& entry.severity == event.severity
            &&& judged.severity == event.severity
            &&& entry.flags == event.strategy.index()
            &&& judged.flags == event.strategy.index()
            &&& entry.data0 == event.fingerprint_root
            &&& entry.data1 == event.root
            &&& judged.value == event.root
            &&& judged.kind == 0xd100 + event.kind.code()
            &&& entry.kind is Observation <==> event.kind.code() == 1 || event.kind.code() == 3
            &&& entry.kind is PolicyDecision <==> event.kind.code() == 2 || event.kind.code() == 6
            &&& entry.kind is Recovery <==> event.kind.code() == 4 || event.kind.code() == 7
            &&& entry.kind is Checkpoint <==> event.kind.code() == 5
            &&& entry.kind is Quarantine <==> event.kind.code() >= 8
        }),
{
}

} // verus!
