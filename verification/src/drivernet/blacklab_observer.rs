//! An observer that enters discovery into a ledger and a temporal mesh.

use super::telemetry::{DriverNetEvent, DriverNetEventKind, DriverNetObserver};
use vstd::prelude::*;

verus! {

pub const ORACULAR_KIND_DRIVERNET_BASE: u16 = 0xd100;

#[derive(Clone, Copy, Debug, PartialEq, Eq, Structural)]
pub enum LedgerEventKind {
    Observation,
    PolicyDecision,
    Recovery,
    Checkpoint,
    Quarantine,
}

#[derive(Clone, Copy, Debug, PartialEq, Eq, Structural)]
pub struct LedgerEvent {
    pub tick: u64,
    pub subject: u64,
    pub data0: u64,
    pub data1: u64,
    pub kind: LedgerEventKind,
    pub severity: u8,
    pub flags: u8,
}

#[derive(Clone, Copy, Debug, PartialEq, Eq, Structural)]
pub struct OracleEvent {
    pub tick: u64,
    pub kind: u16,
    pub severity: u8,
    pub flags: u16,
    pub subject: u64,
    pub value: u64,
}

/// One entry that a ledger was given.
pub struct LedgerEntry<R> {
    pub event: LedgerEvent,
    pub reply: Result<(), R>,
}

/// Whoever keeps the ledger. Each call adds one entry to its history.
pub trait EventLedger {
    type Refusal: Copy;

    /// All that the ledger was given and answered.
    open spec fn history(&self) -> Seq<LedgerEntry<Self::Refusal>> {
        arbitrary()
    }

    fn append(&mut self, event: LedgerEvent) -> (reply: Result<(), Self::Refusal>)
        ensures
            final(self).history() == old(self).history().push(LedgerEntry { event, reply }),
    ;
}

/// A ledger that is lent.
impl<L: EventLedger> EventLedger for &mut L {
    type Refusal = L::Refusal;

    open spec fn history(&self) -> Seq<LedgerEntry<L::Refusal>> {
        (**self).history()
    }

    fn append(&mut self, event: LedgerEvent) -> (reply: Result<(), L::Refusal>) {
        (**self).append(event)
    }
}

/// One event that a mesh was shown.
pub struct MeshEntry<V, R> {
    pub event: OracleEvent,
    pub reply: Result<V, R>,
}

/// Whoever judges events in time. Each call adds one entry to its history.
pub trait TemporalMesh {
    type Verdict: Copy;

    type Refusal: Copy;

    /// All that the mesh was shown and answered.
    open spec fn history(&self) -> Seq<MeshEntry<Self::Verdict, Self::Refusal>> {
        arbitrary()
    }

    fn observe(&mut self, event: OracleEvent) -> (reply: Result<Self::Verdict, Self::Refusal>)
        ensures
            final(self).history() == old(self).history().push(MeshEntry { event, reply }),
    ;
}

/// A mesh that is lent.
impl<M: TemporalMesh> TemporalMesh for &mut M {
    type Verdict = M::Verdict;

    type Refusal = M::Refusal;

    open spec fn history(&self) -> Seq<MeshEntry<M::Verdict, M::Refusal>> {
        (**self).history()
    }

    fn observe(&mut self, event: OracleEvent) -> (reply: Result<M::Verdict, M::Refusal>) {
        (**self).observe(event)
    }
}

#[derive(Clone, Copy, Debug)]
pub enum BlackLabObserverFault<L, T> {
    Ledger(L),
    Temporal(T),
}

/// How the ledger files an event.
#[verifier::allow_in_spec]
pub fn ledger_kind(kind: DriverNetEventKind) -> LedgerEventKind
    returns
        (match kind {
            DriverNetEventKind::Fingerprint => LedgerEventKind::Observation,
            DriverNetEventKind::CandidateAttempt => LedgerEventKind::Observation,
            DriverNetEventKind::OracleDecision => LedgerEventKind::PolicyDecision,
            DriverNetEventKind::PrimarySelected => LedgerEventKind::PolicyDecision,
            DriverNetEventKind::Rollback => LedgerEventKind::Recovery,
            DriverNetEventKind::FirmwareFallback => LedgerEventKind::Recovery,
            DriverNetEventKind::Commit => LedgerEventKind::Checkpoint,
            DriverNetEventKind::Quarantine => LedgerEventKind::Quarantine,
            DriverNetEventKind::InventoryOverflow => LedgerEventKind::Quarantine,
            DriverNetEventKind::ConfigurationIncomplete => LedgerEventKind::Quarantine,
            DriverNetEventKind::NoDisplay => LedgerEventKind::Quarantine,
        }),
{
    match kind {
        DriverNetEventKind::Fingerprint | DriverNetEventKind::CandidateAttempt => {
            LedgerEventKind::Observation
        },
        DriverNetEventKind::OracleDecision | DriverNetEventKind::PrimarySelected => {
            LedgerEventKind::PolicyDecision
        },
        DriverNetEventKind::Rollback | DriverNetEventKind::FirmwareFallback => {
            LedgerEventKind::Recovery
        },
        DriverNetEventKind::Commit => LedgerEventKind::Checkpoint,
        DriverNetEventKind::Quarantine
        | DriverNetEventKind::InventoryOverflow
        | DriverNetEventKind::ConfigurationIncomplete
        | DriverNetEventKind::NoDisplay => LedgerEventKind::Quarantine,
    }
}

/// What the ledger is told of an event.
#[verifier::allow_in_spec]
pub fn ledger_event(event: DriverNetEvent) -> LedgerEvent
    returns
        (LedgerEvent {
            tick: event.tick,
            subject: event.address as u64,
            data0: event.fingerprint_root,
            data1: event.root,
            kind: ledger_kind(event.kind),
            severity: event.severity,
            flags: event.strategy.index() as u8,
        }),
{
    LedgerEvent {
        tick: event.tick,
        subject: event.address as u64,
        data0: event.fingerprint_root,
        data1: event.root,
        kind: ledger_kind(event.kind),
        severity: event.severity,
        flags: event.strategy.index() as u8,
    }
}

/// What the mesh is told of an event.
#[verifier::allow_in_spec]
pub fn oracle_event(event: DriverNetEvent) -> OracleEvent
    returns
        (OracleEvent {
            tick: event.tick,
            kind: (ORACULAR_KIND_DRIVERNET_BASE + event.kind.code()) as u16,
            severity: event.severity,
            flags: event.strategy.index() as u16,
            subject: event.address as u64,
            value: event.root,
        }),
{
    OracleEvent {
        tick: event.tick,
        kind: ORACULAR_KIND_DRIVERNET_BASE + event.kind.code(),
        severity: event.severity,
        flags: event.strategy.index() as u16,
        subject: event.address as u64,
        value: event.root,
    }
}

/// An observer that stops at its first fault until the fault is cleared.
pub struct BlackLabDriverObserver<L: EventLedger, M: TemporalMesh> {
    pub ledger: L,
    pub oracular: M,
    pub last_fault: Option<BlackLabObserverFault<L::Refusal, M::Refusal>>,
    pub last_verdict: Option<M::Verdict>,
    pub observed: u64,
    pub heard: Ghost<Seq<DriverNetEvent>>,
}

impl<L: EventLedger, M: TemporalMesh> BlackLabDriverObserver<L, M> {
    pub fn new(ledger: L, oracular: M) -> (observer: Self)
        ensures
            observer.ledger == ledger,
            observer.oracular == oracular,
            observer.last_fault is None,
            observer.last_verdict is None,
            observer.observed == 0,
            observer.heard() == Seq::<DriverNetEvent>::empty(),
    {
        BlackLabDriverObserver {
            ledger,
            oracular,
            last_fault: None,
            last_verdict: None,
            observed: 0,
            heard: Ghost(Seq::empty()),
        }
    }

    pub fn last_fault(&self) -> (fault: Option<BlackLabObserverFault<L::Refusal, M::Refusal>>)
        ensures
            fault == self.last_fault,
    {
        self.last_fault
    }

    pub fn last_verdict(&self) -> (verdict: Option<M::Verdict>)
        ensures
            verdict == self.last_verdict,
    {
        self.last_verdict
    }

    pub fn observed(&self) -> (observed: u64)
        ensures
            observed == self.observed,
    {
        self.observed
    }

    pub fn clear_fault(&mut self)
        ensures
            *final(self) == (BlackLabDriverObserver { last_fault: None, ..*old(self) }),
    {
        self.last_fault = None;
    }

    /// Whether the observer counted an event.
    pub open spec fn counts(self, event: DriverNetEvent, after: Self) -> bool {
        &&& after.heard@ == self.heard@.push(event)
        &&& after.observed == (if self.observed == u64::MAX {
            self.observed
        } else {
            (self.observed + 1) as u64
        })
    }

    /// Whether the mesh was shown an event once and its answer kept.
    pub open spec fn judges(self, event: DriverNetEvent, after: Self) -> bool {
        let reply = after.oracular.history().last().reply;
        &&& after.oracular.history() == self.oracular.history().push(
            MeshEntry { event: oracle_event(event), reply },
        )
        &&& match reply {
            Ok(verdict) => after.last_verdict == Some(verdict) && after.last_fault is None,
            Err(refusal) => after.last_verdict == self.last_verdict && after.last_fault == Some(
                BlackLabObserverFault::<L::Refusal, M::Refusal>::Temporal(refusal),
            ),
        }
    }

    /// Whether an event takes the observer from one state to the other: it is counted;
    /// without a fault it is entered into the ledger once, and shown to the mesh once where
    /// the ledger took it.
    pub open spec fn observes(self, event: DriverNetEvent, after: Self) -> bool {
        &&& self.counts(event, after)
        &&& if self.last_fault is Some {
            &&& after.ledger == self.ledger
            &&& after.oracular == self.oracular
            &&& after.last_fault == self.last_fault
            &&& after.last_verdict == self.last_verdict
        } else {
            let reply = after.ledger.history().last().reply;
            &&& after.ledger.history() == self.ledger.history().push(
                LedgerEntry { event: ledger_event(event), reply },
            )
            &&& match reply {
                Err(refusal) => {
                    &&& after.oracular == self.oracular
                    &&& after.last_verdict == self.last_verdict
                    &&& after.last_fault == Some(
                        BlackLabObserverFault::<L::Refusal, M::Refusal>::Ledger(refusal),
                    )
                },
                Ok(_) => self.judges(event, after),
            }
        }
    }
}

impl<L: EventLedger, M: TemporalMesh> DriverNetObserver for BlackLabDriverObserver<L, M> {
    open spec fn heard(&self) -> Seq<DriverNetEvent> {
        self.heard@
    }

    fn observe(&mut self, event: DriverNetEvent)
        ensures
            old(self).observes(event, *final(self)),
    {
        proof {
            self.heard = Ghost(self.heard@.push(event));
        }
        if self.observed < u64::MAX {
            self.observed = self.observed + 1;
        }
        if self.last_fault.is_some() {
            return;
        }
        let entered = self.ledger.append(ledger_event(event));
        match entered {
            Err(refusal) => {
                self.last_fault = Some(BlackLabObserverFault::Ledger(refusal));
            },
            Ok(()) => {
                let reply = self.oracular.observe(oracle_event(event));
                match reply {
                    Ok(verdict) => {
                        self.last_verdict = Some(verdict);
                    },
                    Err(refusal) => {
                        self.last_fault = Some(BlackLabObserverFault::Temporal(refusal));
                    },
                }
            },
        }
    }
}

/// A faulted observer only counts: neither ledger nor mesh hears of the event.
pub proof fn law_a_faulted_observer_only_counts<L: EventLedger, M: TemporalMesh>(
    before: BlackLabDriverObserver<L, M>,
    event: DriverNetEvent,
    after: BlackLabDriverObserver<L, M>,
)
    requires
        before.last_fault is Some,
        before.observes(event, after),
    ensures
        after.last_fault == before.last_fault,
        after.last_verdict == before.last_verdict,
        after.ledger.history() == before.ledger.history(),
        after.oracular.history() == before.oracular.history(),
        before.observed < u64::MAX ==> after.observed == before.observed + 1,
{
}

/// An event is entered into the ledger at most once, and shown to the mesh at most once.
pub proof fn law_an_event_is_told_at_most_once<L: EventLedger, M: TemporalMesh>(
    before: BlackLabDriverObserver<L, M>,
    event: DriverNetEvent,
    after: BlackLabDriverObserver<L, M>,
)
    requires
        before.observes(event, after),
    ensures
        before.ledger.history().len() <= after.ledger.history().len()
            <= before.ledger.history().len() + 1,
        before.oracular.history().len() <= after.oracular.history().len()
            <= before.oracular.history().len() + 1,
{
}

} // verus!
