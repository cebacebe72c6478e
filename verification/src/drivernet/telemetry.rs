//! Sealed telemetry of driver discovery.

use super::dispatch::{AttemptOutcome, AttemptRecord, DispatchResolution, FaultCode};
use super::fingerprint::GpuFingerprint;
use super::model::{DriverStrategy, OracleDecision};
use crate::seal::Sealer;
use vstd::prelude::*;

verus! {

#[derive(Clone, Copy, Debug, PartialEq, Eq, Structural)]
pub enum DriverNetEventKind {
    Fingerprint,
    OracleDecision,
    CandidateAttempt,
    Rollback,
    Commit,
    PrimarySelected,
    FirmwareFallback,
    Quarantine,
    InventoryOverflow,
    NoDisplay,
    ConfigurationIncomplete,
}

impl DriverNetEventKind {
    #[verifier::allow_in_spec]
    pub fn code(self) -> u16
        returns
            (match self {
                DriverNetEventKind::Fingerprint => 1u16,
                DriverNetEventKind::OracleDecision => 2u16,
                DriverNetEventKind::CandidateAttempt => 3u16,
                DriverNetEventKind::Rollback => 4u16,
                DriverNetEventKind::Commit => 5u16,
                DriverNetEventKind::PrimarySelected => 6u16,
                DriverNetEventKind::FirmwareFallback => 7u16,
                DriverNetEventKind::Quarantine => 8u16,
                DriverNetEventKind::InventoryOverflow => 9u16,
                DriverNetEventKind::NoDisplay => 10u16,
                DriverNetEventKind::ConfigurationIncomplete => 11u16,
            }),
    {
        match self {
            DriverNetEventKind::Fingerprint => 1,
            DriverNetEventKind::OracleDecision => 2,
            DriverNetEventKind::CandidateAttempt => 3,
            DriverNetEventKind::Rollback => 4,
            DriverNetEventKind::Commit => 5,
            DriverNetEventKind::PrimarySelected => 6,
            DriverNetEventKind::FirmwareFallback => 7,
            DriverNetEventKind::Quarantine => 8,
            DriverNetEventKind::InventoryOverflow => 9,
            DriverNetEventKind::NoDisplay => 10,
            DriverNetEventKind::ConfigurationIncomplete => 11,
        }
    }
}

#[derive(Clone, Copy, Debug, PartialEq, Eq)]
pub struct DriverNetEvent {
    pub tick: u64,
    pub kind: DriverNetEventKind,
    pub severity: u8,
    pub strategy: DriverStrategy,
    pub address: u32,
    pub fingerprint_root: u64,
    pub decision_root: u64,
    pub data0: u64,
    pub data1: u64,
    pub root: u64,
}

impl DriverNetEvent {
    /// The words that an event root seals.
    pub open spec fn words(self) -> Seq<u64> {
        seq![
            self.tick,
            self.kind.code() as u64,
            self.severity as u64,
            self.strategy.index() as u64,
            self.address as u64,
            self.fingerprint_root,
            self.decision_root,
            self.data0,
            self.data1,
        ]
    }

    /// The event with its root set.
    pub open spec fn sealed(self, secret: u64) -> DriverNetEvent {
        DriverNetEvent { root: crate::seal::seal_of(secret, self.words()), ..self }
    }

    /// An event that says nothing.
    #[verifier::allow_in_spec]
    pub fn empty() -> DriverNetEvent
        returns
            (DriverNetEvent {
                tick: 0,
                kind: DriverNetEventKind::Fingerprint,
                severity: 0,
                strategy: DriverStrategy::Quarantine,
                address: 0,
                fingerprint_root: 0,
                decision_root: 0,
                data0: 0,
                data1: 0,
                root: 0,
            }),
    {
        DriverNetEvent {
            tick: 0,
            kind: DriverNetEventKind::Fingerprint,
            severity: 0,
            strategy: DriverStrategy::Quarantine,
            address: 0,
            fingerprint_root: 0,
            decision_root: 0,
            data0: 0,
            data1: 0,
            root: 0,
        }
    }

    pub fn seal(&mut self, secret: u64)
        ensures
            *final(self) == old(self).sealed(secret),
    {
        self.root = event_root(secret, self);
    }

    pub fn verify(&self, secret: u64) -> (verified: bool)
        ensures
            verified == (self.root == crate::seal::seal_of(secret, self.words())),
    {
        self.root == event_root(secret, self)
    }
}

fn event_root(secret: u64, event: &DriverNetEvent) -> (root: u64)
    ensures
        root == crate::seal::seal_of(secret, event.words()),
{
    Sealer::new(secret).word(event.tick).word(event.kind.code() as u64).word(
        event.severity as u64,
    ).word(event.strategy.index() as u64).word(event.address as u64).word(
        event.fingerprint_root,
    ).word(event.decision_root).word(event.data0).word(event.data1).root()
}

/// Whoever wants to hear of events.
pub trait DriverNetObserver {
    /// All that the observer was told.
    open spec fn heard(&self) -> Seq<DriverNetEvent> {
        arbitrary()
    }

    fn observe(&mut self, event: DriverNetEvent)
        ensures
            final(self).heard() == old(self).heard().push(event),
    ;
}

/// An observer that hears and forgets.
pub struct NullObserver {
    pub heard: Ghost<Seq<DriverNetEvent>>,
}

impl NullObserver {
    pub fn new() -> (observer: Self)
        ensures
            observer.heard() == Seq::<DriverNetEvent>::empty(),
    {
        NullObserver { heard: Ghost(Seq::empty()) }
    }
}

impl DriverNetObserver for NullObserver {
    open spec fn heard(&self) -> Seq<DriverNetEvent> {
        self.heard@
    }

    fn observe(&mut self, event: DriverNetEvent) {
        proof {
            self.heard@ = self.heard@.push(event);
        }
    }
}

/// The observer of a run. What it was told is all that the observer heard.
pub struct ObserverTrace<O> {
    pub observer: O,
}

impl<O: DriverNetObserver> ObserverTrace<O> {
    pub open spec fn told(&self) -> Seq<DriverNetEvent> {
        self.observer.heard()
    }

    pub fn new(observer: O) -> (trace: Self)
        ensures
            trace.observer == observer,
    {
        ObserverTrace { observer }
    }

    pub fn observe(&mut self, event: DriverNetEvent)
        ensures
            final(self).told() == old(self).told().push(event),
    {
        self.observer.observe(event);
    }
}

#[verifier::allow_in_spec]
pub fn packed_address(fingerprint: &GpuFingerprint) -> u32
    returns
        (fingerprint.segment as u32) | ((fingerprint.bus as u32) << 16) | ((
        fingerprint.slot as u32) << 24) | ((fingerprint.function as u32) << 29),
{
    (fingerprint.segment as u32) | ((fingerprint.bus as u32) << 16) | ((fingerprint.slot as u32)
        << 24) | ((fingerprint.function as u32) << 29)
}

pub open spec fn fingerprint_event_of(
    secret: u64,
    tick: u64,
    fingerprint: GpuFingerprint,
) -> DriverNetEvent {
    (DriverNetEvent {
        tick,
        kind: DriverNetEventKind::Fingerprint,
        severity: 0,
        strategy: DriverStrategy::Quarantine,
        address: packed_address(&fingerprint),
        fingerprint_root: fingerprint.evidence_root,
        decision_root: 0,
        data0: (fingerprint.vendor_id as u64) | ((fingerprint.device_id as u64) << 16) | ((
        fingerprint.subsystem_vendor_id as u64) << 32) | ((fingerprint.subsystem_device_id as u64)
            << 48),
        data1: (fingerprint.capability_flags as u64) | ((fingerprint.topology_flags as u64) << 32),
        root: 0,
    }).sealed(secret)
}

pub fn fingerprint_event(secret: u64, tick: u64, fingerprint: &GpuFingerprint) -> (event:
    DriverNetEvent)
    ensures
        event == fingerprint_event_of(secret, tick, *fingerprint),
{
    let mut event = DriverNetEvent {
        tick,
        kind: DriverNetEventKind::Fingerprint,
        severity: 0,
        strategy: DriverStrategy::Quarantine,
        address: packed_address(fingerprint),
        fingerprint_root: fingerprint.evidence_root,
        decision_root: 0,
        data0: (fingerprint.vendor_id as u64) | ((fingerprint.device_id as u64) << 16) | ((
        fingerprint.subsystem_vendor_id as u64) << 32) | ((fingerprint.subsystem_device_id as u64)
            << 48),
        data1: (fingerprint.capability_flags as u64) | ((fingerprint.topology_flags as u64) << 32),
        root: 0,
    };
    event.seal(secret);
    event
}

/// The confidence below which a decision is reported with a warning.
pub const CONFIDENT_DECISION_Q16: u16 = 12_000;

pub open spec fn decision_event_of(
    secret: u64,
    tick: u64,
    fingerprint: GpuFingerprint,
    decision: OracleDecision,
) -> DriverNetEvent {
    (DriverNetEvent {
        tick,
        kind: DriverNetEventKind::OracleDecision,
        severity: if decision.confidence_q16 < CONFIDENT_DECISION_Q16 {
            1
        } else {
            0
        },
        strategy: if decision.length > 0 {
            decision.ranked[0].strategy
        } else {
            DriverStrategy::Quarantine
        },
        address: packed_address(&fingerprint),
        fingerprint_root: fingerprint.evidence_root,
        decision_root: decision.decision_root,
        data0: (decision.confidence_q16 as u64) | ((decision.reasons as u64) << 16),
        data1: decision.best_margin as u64,
        root: 0,
    }).sealed(secret)
}

pub fn decision_event(
    secret: u64,
    tick: u64,
    fingerprint: &GpuFingerprint,
    decision: &OracleDecision,
) -> (event: DriverNetEvent)
    ensures
        event == decision_event_of(secret, tick, *fingerprint, *decision),
{
    let mut event = DriverNetEvent {
        tick,
        kind: DriverNetEventKind::OracleDecision,
        severity: if decision.confidence_q16 < CONFIDENT_DECISION_Q16 {
            1
        } else {
            0
        },
        strategy: if decision.length > 0 {
            decision.ranked[0].strategy
        } else {
            DriverStrategy::Quarantine
        },
        address: packed_address(fingerprint),
        fingerprint_root: fingerprint.evidence_root,
        decision_root: decision.decision_root,
        data0: (decision.confidence_q16 as u64) | ((decision.reasons as u64) << 16),
        data1: decision.best_margin as u64,
        root: 0,
    };
    event.seal(secret);
    event
}

/// How grave the outcome of an attempt is.
#[verifier::allow_in_spec]
pub fn attempt_severity(outcome: AttemptOutcome) -> u8
    returns
        (match outcome {
            AttemptOutcome::Committed => 0u8,
            AttemptOutcome::Skipped => 1u8,
            AttemptOutcome::RolledBack => 2u8,
            _ => 3u8,
        }),
{
    match outcome {
        AttemptOutcome::Committed => 0,
        AttemptOutcome::Skipped => 1,
        AttemptOutcome::RolledBack => 2,
        _ => 3,
    }
}

pub open spec fn attempt_event_of(
    secret: u64,
    fingerprint: GpuFingerprint,
    decision_root: u64,
    attempt: AttemptRecord,
) -> DriverNetEvent {
    (DriverNetEvent {
        tick: attempt.ended_tick,
        kind: if attempt.outcome == AttemptOutcome::RolledBack {
            DriverNetEventKind::Rollback
        } else {
            DriverNetEventKind::CandidateAttempt
        },
        severity: attempt_severity(attempt.outcome),
        strategy: attempt.strategy,
        address: packed_address(&fingerprint),
        fingerprint_root: fingerprint.evidence_root,
        decision_root,
        data0: (attempt.evidence_mask as u64) | ((attempt.stage.code() as u64) << 32) | ((
        attempt.outcome.code() as u64) << 40) | ((attempt.fault.code() as u64) << 48),
        data1: attempt.detail,
        root: 0,
    }).sealed(secret)
}

pub fn attempt_event(
    secret: u64,
    fingerprint: &GpuFingerprint,
    decision_root: u64,
    attempt: AttemptRecord,
) -> (event: DriverNetEvent)
    ensures
        event == attempt_event_of(secret, *fingerprint, decision_root, attempt),
{
    let mut event = DriverNetEvent {
        tick: attempt.ended_tick,
        kind: if attempt.outcome == AttemptOutcome::RolledBack {
            DriverNetEventKind::Rollback
        } else {
            DriverNetEventKind::CandidateAttempt
        },
        severity: attempt_severity(attempt.outcome),
        strategy: attempt.strategy,
        address: packed_address(fingerprint),
        fingerprint_root: fingerprint.evidence_root,
        decision_root,
        data0: (attempt.evidence_mask as u64) | ((attempt.stage.code() as u64) << 32) | ((
        attempt.outcome.code() as u64) << 40) | ((attempt.fault.code() as u64) << 48),
        data1: attempt.detail,
        root: 0,
    };
    event.seal(secret);
    event
}

pub open spec fn lease_event_of(
    secret: u64,
    fingerprint: GpuFingerprint,
    resolution: DispatchResolution,
) -> DriverNetEvent {
    (DriverNetEvent {
        tick: resolution.lease.committed_tick,
        kind: match resolution.active_strategy {
            DriverStrategy::FirmwareFramebuffer => DriverNetEventKind::FirmwareFallback,
            DriverStrategy::Quarantine => DriverNetEventKind::Quarantine,
            _ => DriverNetEventKind::Commit,
        },
        severity: if resolution.active_strategy == DriverStrategy::Quarantine {
            4
        } else {
            0
        },
        strategy: resolution.active_strategy,
        address: packed_address(&fingerprint),
        fingerprint_root: fingerprint.evidence_root,
        decision_root: resolution.decision_root,
        data0: resolution.lease.handle,
        data1: resolution.resolution_root,
        root: 0,
    }).sealed(secret)
}

pub fn lease_event(
    secret: u64,
    fingerprint: &GpuFingerprint,
    resolution: &DispatchResolution,
) -> (event: DriverNetEvent)
    ensures
        event == lease_event_of(secret, *fingerprint, *resolution),
{
    let mut event = DriverNetEvent {
        tick: resolution.lease.committed_tick,
        kind: match resolution.active_strategy {
            DriverStrategy::FirmwareFramebuffer => DriverNetEventKind::FirmwareFallback,
            DriverStrategy::Quarantine => DriverNetEventKind::Quarantine,
            _ => DriverNetEventKind::Commit,
        },
        severity: if resolution.active_strategy == DriverStrategy::Quarantine {
            4
        } else {
            0
        },
        strategy: resolution.active_strategy,
        address: packed_address(fingerprint),
        fingerprint_root: fingerprint.evidence_root,
        decision_root: resolution.decision_root,
        data0: resolution.lease.handle,
        data1: resolution.resolution_root,
        root: 0,
    };
    event.seal(secret);
    event
}

/// The events of a resolution: one per attempt, then one for the lease.
pub open spec fn resolution_events_of(
    secret: u64,
    fingerprint: GpuFingerprint,
    resolution: DispatchResolution,
) -> Seq<DriverNetEvent> {
    resolution.attempts@.map_values(
        |attempt: AttemptRecord|
            attempt_event_of(secret, fingerprint, resolution.decision_root, attempt),
    ).push(lease_event_of(secret, fingerprint, resolution))
}

/// Writes the events of a resolution, as many as fit.
pub fn resolution_events(
    secret: u64,
    fingerprint: &GpuFingerprint,
    resolution: &DispatchResolution,
    output: &mut [DriverNetEvent],
) -> (length: usize)
    requires
        resolution.attempts@.len() < usize::MAX,
    ensures
        final(output)@.len() == old(output)@.len(),
        ({
            let events = resolution_events_of(secret, *fingerprint, *resolution);
            &&& length == (if events.len() < old(output)@.len() {
                events.len()
            } else {
                old(output)@.len()
            })
            &&& final(output)@ == events.take(length as int) + old(output)@.skip(length as int)
        }),
{
    let ghost events = resolution_events_of(secret, *fingerprint, *resolution);
    let ghost before = output@;
    let attempts = resolution.attempts();
    let mut length: usize = 0;
    assert(output@ =~= events.take(0) + before.skip(0));
    while length < attempts.len()
        invariant
            length <= attempts@.len(),
            length <= output@.len(),
            attempts@ == resolution.attempts@,
            before == old(output)@,
            output@.len() == before.len(),
            events == resolution_events_of(secret, *fingerprint, *resolution),
            events.len() == attempts@.len() + 1,
            output@ =~= events.take(length as int) + before.skip(length as int),
        decreases attempts@.len() - length,
    {
        if length >= output.len() {
            return length;
        }
        let event = attempt_event(
            secret,
            fingerprint,
            resolution.decision_root,
            attempts[length],
        );
        assert(event == events[length as int]);
        output[length] = event;
        length += 1;
        assert(output@ =~= events.take(length as int) + before.skip(length as int));
    }
    if length < output.len() {
        let event = lease_event(secret, fingerprint, resolution);
        assert(event == events[length as int]);
        output[length] = event;
        length += 1;
        assert(output@ =~= events.take(length as int) + before.skip(length as int));
    }
    length
}

pub open spec fn terminal_event_of(
    secret: u64,
    tick: u64,
    kind: DriverNetEventKind,
    strategy: DriverStrategy,
    fingerprint: GpuFingerprint,
    decision_root: u64,
    fault: FaultCode,
    detail: u64,
) -> DriverNetEvent {
    (DriverNetEvent {
        tick,
        kind,
        severity: 4,
        strategy,
        address: packed_address(&fingerprint),
        fingerprint_root: fingerprint.evidence_root,
        decision_root,
        data0: fault.code() as u64,
        data1: detail,
        root: 0,
    }).sealed(secret)
}

pub fn terminal_event(
    secret: u64,
    tick: u64,
    kind: DriverNetEventKind,
    strategy: DriverStrategy,
    fingerprint: &GpuFingerprint,
    decision_root: u64,
    fault: FaultCode,
    detail: u64,
) -> (event: DriverNetEvent)
    ensures
        event == terminal_event_of(
            secret,
            tick,
            kind,
            strategy,
            *fingerprint,
            decision_root,
            fault,
            detail,
        ),
{
    let mut event = DriverNetEvent {
        tick,
        kind,
        severity: 4,
        strategy,
        address: packed_address(fingerprint),
        fingerprint_root: fingerprint.evidence_root,
        decision_root,
        data0: fault.code() as u64,
        data1: detail,
        root: 0,
    };
    event.seal(secret);
    event
}

/// A sealed event verifies under the secret that sealed it, and only under
/// that one.
pub proof fn law_a_sealed_event_verifies(event: DriverNetEvent, secret: u64, other: u64)
    ensures
        event.sealed(secret).root == crate::seal::seal_of(secret, event.sealed(secret).words()),
        other != secret ==> event.sealed(secret).root != crate::seal::seal_of(
            other,
            event.sealed(secret).words(),
        ),
{
    assert(event.sealed(secret).words() =~= event.words());
    if other != secret {
        crate::seal::law_root_binds_the_seed(secret, other, event.words());
    }
}

} // verus!
