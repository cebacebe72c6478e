//! Laws of how an attempt at a driver ends and how the platform takes part.

use vstd::prelude::*;

use crate::drivernet::dispatch::ActivationReceipt;
use crate::drivernet::dispatch::Attempt;
use crate::drivernet::dispatch::AttemptOutcome;
use crate::drivernet::dispatch::BackendEvent;
use crate::drivernet::dispatch::BackendFault;
use crate::drivernet::dispatch::Candidacy;
use crate::drivernet::dispatch::DispatchStage;
use crate::drivernet::dispatch::DriverDispatcher;
use crate::drivernet::dispatch::DriverLease;
use crate::drivernet::dispatch::FaultCode;
use crate::drivernet::dispatch::ProbeObservation;
use crate::drivernet::dispatch::ProbeTransaction;
use crate::drivernet::dispatch::WalkEnd;
use crate::drivernet::fingerprint::GpuFingerprint;
use crate::drivernet::model::DriverStrategy;
use crate::drivernet::platform::PlatformEvent;
use crate::drivernet::registry::ProbeStep;
use crate::drivernet::registry::ShimDescriptor;
use crate::drivernet::telemetry::DriverNetEventKind;
use crate::drivernet::GpuResolution;

verus! {

/// A committed attempt is recorded from its start to the tick of its lease, with
/// the lease's handle and without a fault.
pub proof fn law_a_commit_is_recorded(
    case: Candidacy,
    started: u64,
    lease: DriverLease,
    evidence_mask: u32,
)
    ensures
        ({
            let record = crate::drivernet::dispatch::commit_record_of(
                case,
                started,
                lease,
                evidence_mask,
            );
            &&& record.strategy == case.candidate.strategy
            &&& record.score == case.candidate.score
            &&& record.confidence_q16 == case.decision.confidence_q16
            &&& record.stage == DispatchStage::Complete
            &&& record.outcome == AttemptOutcome::Committed
            &&& record.started_tick == started
            &&& record.ended_tick == lease.committed_tick
            &&& record.evidence_mask == evidence_mask
            &&& record.fault == FaultCode::Clear
            &&& record.detail == lease.handle
        }),
{
}

/// An activation that fails, is not for the driver or takes longer than its budget
/// is undone as such.
pub proof fn law_an_activation_ends_in_time(
    case: Candidacy,
    started: u64,
    transaction: ProbeTransaction,
    log: Seq<BackendEvent>,
    at: int,
    attempt: Attempt,
    end: int,
)
    requires
        crate::drivernet::dispatch::activation_run(case, started, transaction, log, at) == Some(
            (attempt, end),
        ),
    ensures
        log[at] is Tick,
        log[at + 1] is Activate,
        log[at + 1]->Activate_reply matches Err(fault) ==> end == at + 4 && (attempt matches Err(
            record,
        ) && record.stage == DispatchStage::Activate && (record.outcome
            == AttemptOutcome::RolledBack ==> record.fault == fault.code && record.detail
            == fault.detail)),
        log[at + 1]->Activate_reply matches Ok(receipt) ==> receipt.strategy
            != case.descriptor.strategy ==> end == at + 4 && (attempt matches Err(record)
            && record.stage == DispatchStage::Activate && (record.outcome
            == AttemptOutcome::RolledBack ==> record.fault == FaultCode::ActivationFault)),
        log[at + 1]->Activate_reply matches Ok(receipt) ==> (receipt.valid() && receipt.strategy
            == case.descriptor.strategy ==> log[at + 2] is Tick && (log[at + 2]->Tick_0
            > log[at]->Tick_0 + case.descriptor.activation_budget_ticks ==> end == at + 5 && (
        attempt matches Err(record) && record.stage == DispatchStage::Activate && (record.outcome
            == AttemptOutcome::RolledBack ==> record.fault == FaultCode::ActivationTimeout
            && record.detail == log[at]->Tick_0 + case.descriptor.activation_budget_ticks)))),
{
}

/// A health check that fails, finds the device unhealthy or takes longer than its
/// budget is undone as such.
pub proof fn law_a_health_check_ends_in_time(
    case: Candidacy,
    started: u64,
    transaction: ProbeTransaction,
    activation: ActivationReceipt,
    log: Seq<BackendEvent>,
    at: int,
    attempt: Attempt,
    end: int,
)
    requires
        crate::drivernet::dispatch::health_run(case, started, transaction, activation, log, at)
            == Some((attempt, end)),
    ensures
        log[at] is Tick,
        log[at + 1] is Health,
        log[at + 1]->Health_activation == activation,
        log[at + 1]->Health_reply matches Err(fault) ==> end == at + 4 && (attempt matches Err(
            record,
        ) && record.stage == DispatchStage::HealthCheck && (record.outcome
            == AttemptOutcome::RolledBack ==> record.fault == fault.code && record.detail
            == fault.detail)),
        log[at + 1]->Health_reply matches Ok(receipt) ==> (!receipt.healthy ==> end == at + 4 && (
        attempt matches Err(record) && record.stage == DispatchStage::HealthCheck && (record.outcome
            == AttemptOutcome::RolledBack ==> record.fault == FaultCode::Unhealthy && record.detail
            == receipt.fault_mask))),
        log[at + 1]->Health_reply matches Ok(receipt) ==> (receipt.healthy && receipt.root != 0
            ==> log[at + 2] is Tick && (log[at + 2]->Tick_0 > log[at]->Tick_0
            + case.descriptor.health_budget_ticks ==> end == at + 5 && (attempt matches Err(record)
            && record.stage == DispatchStage::HealthCheck && (record.outcome
            == AttemptOutcome::RolledBack ==> record.fault == FaultCode::HealthTimeout
            && record.detail == log[at]->Tick_0 + case.descriptor.health_budget_ticks)))),
{
}

/// A resolution is counted and moves the clock to its commit; any other walk only
/// moves the clock.
pub proof fn law_resolutions_are_counted(
    dispatcher: DriverDispatcher,
    now: u64,
    end: WalkEnd,
    rollbacks: u64,
)
    ensures
        ({
            let after = dispatcher.after_walk(now, end, rollbacks);
            &&& after.totals().1 == rollbacks
            &&& end matches WalkEnd::Leased { lease, .. } ==> after.last_tick
                == lease.committed_tick && (dispatcher.totals().0 < u64::MAX ==> after.totals().0
                - dispatcher.totals().0 == 1)
            &&& !(end is Leased) ==> after.last_tick == now && after.totals().0
                == dispatcher.totals().0
        }),
{
}

/// A step is probed only before the deadline and on an isolated device, after the
/// clock was read; a fault leaves the transaction as it was.
pub proof fn law_a_step_is_probed_in_time(
    last_tick: u64,
    transaction: ProbeTransaction,
    fingerprint: GpuFingerprint,
    descriptor: ShimDescriptor,
    step: ProbeStep,
    attempt: u8,
    log: Seq<PlatformEvent>,
    at: int,
    result: Result<ProbeObservation, BackendFault>,
    after: ProbeTransaction,
    end: int,
)
    requires
        crate::drivernet::platform::probe_run(
            last_tick,
            transaction,
            fingerprint,
            descriptor,
            step,
            attempt,
            log,
            at,
        ) == Some((result, after, end)),
    ensures
        log[at] is Clock,
        log[at]->Clock_0 < last_tick ==> result is Err && end == at + 1,
        log[at]->Clock_0 > transaction.deadline_tick ==> result is Err && end == at + 1,
        (last_tick <= log[at]->Clock_0 && log[at]->Clock_0 > transaction.deadline_tick)
            ==> result->Err_0.code == FaultCode::ProbeTimeout && result->Err_0.detail
            == transaction.deadline_tick,
        end == at + 2 ==> log[at + 1] is Probe && log[at + 1]->Probe_strategy == descriptor.strategy
            && log[at + 1]->Probe_fingerprint == fingerprint && log[at + 1]->step == step && log[at
            + 1]->attempt == attempt && result == log[at + 1]->Probe_reply.1,
        result is Ok ==> end == at + 2,
        result is Err ==> after == transaction,
{
}

/// An activation and a health check are handed to the driver's own broker, after
/// the clock was read; a fault leaves the transaction as it was.
pub proof fn law_brokers_are_asked_after_the_clock(
    last_tick: u64,
    transaction: ProbeTransaction,
    fingerprint: GpuFingerprint,
    activation: ActivationReceipt,
    descriptor: ShimDescriptor,
    log: Seq<PlatformEvent>,
    at: int,
)
    ensures
        crate::drivernet::platform::activate_run(
            last_tick,
            transaction,
            fingerprint,
            descriptor,
            log,
            at,
        ) matches Some((result, after, end)) ==> {
            &&& log[at] is Clock
            &&& log[at]->Clock_0 < last_tick ==> result is Err && end == at + 1
            &&& log[at]->Clock_0 >= last_tick ==> end == at + 2 && log[at + 1] is Activate && log[at
                + 1]->Activate_strategy == descriptor.strategy && log[at + 1]->Activate_fingerprint
                == fingerprint && log[at + 1]->Activate_reply.1 == result
            &&& result is Err ==> after == transaction
        },
        crate::drivernet::platform::health_run(
            last_tick,
            transaction,
            activation,
            descriptor,
            log,
            at,
        ) matches Some((result, after, end)) ==> {
            &&& log[at] is Clock
            &&& log[at]->Clock_0 < last_tick ==> result is Err && end == at + 1
            &&& log[at]->Clock_0 >= last_tick ==> end == at + 2 && log[at + 1] is Health && log[at
                + 1]->Health_strategy == descriptor.strategy && log[at + 1]->Health_activation
                == activation && log[at + 1]->Health_reply.1 == result
            &&& result is Err ==> after == transaction
        },
{
}

/// A terminal event tells the device, the fault and its detail at the highest
/// severity.
pub proof fn law_a_terminal_event_tells_the_fault(
    secret: u64,
    tick: u64,
    kind: DriverNetEventKind,
    strategy: DriverStrategy,
    fingerprint: GpuFingerprint,
    decision_root: u64,
    fault: FaultCode,
    detail: u64,
)
    ensures
        ({
            let event = crate::drivernet::telemetry::terminal_event_of(
                secret,
                tick,
                kind,
                strategy,
                fingerprint,
                decision_root,
                fault,
                detail,
            );
            &&& event.tick == tick
            &&& event.kind == kind
            &&& event.severity == 4
            &&& event.strategy == strategy
            &&& event.fingerprint_root == fingerprint.evidence_root
            &&& event.decision_root == decision_root
            &&& event.data0 == fault.code()
            &&& event.data1 == detail
        }),
{
}

/// Without a primary display the last event says so, for no strategy.
pub proof fn law_no_display_is_told(
    secret: u64,
    tick: u64,
    resolutions: Seq<GpuResolution>,
    first: GpuFingerprint,
)
    ensures
        ({
            let event = crate::drivernet::closing_event_of(secret, tick, resolutions, None, first);
            &&& event.kind == DriverNetEventKind::NoDisplay
            &&& event.strategy == DriverStrategy::Quarantine
            &&& event.fingerprint_root == first.evidence_root
            &&& event.data0 == FaultCode::NoSafeStrategy.code()
            &&& event.tick == tick
        }),
{
}

} // verus!
