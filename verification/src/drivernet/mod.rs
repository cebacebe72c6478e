//! Display-driver discovery, ranking and transactional activation.

pub mod blacklab_observer;
pub mod brokers;
pub mod configuration;
pub mod dispatch;
pub mod ecam;
pub mod fingerprint;
pub mod inventory;
pub mod model;
pub mod model_weights;
pub mod parties;
pub mod platform;
pub mod registry;
pub mod shims;
pub mod telemetry;
pub mod topology;

use self::dispatch::{
    BackendEvent, BackendTrace, DispatchError, DispatchResolution, DriverDispatcher,
    DriverNetBackend, FaultCode, MAXIMUM_ATTEMPTS,
};
use self::fingerprint::{
    fingerprint_inventory, ConfigurationTrace, FingerprintError, FingerprintSummary,
    GpuFingerprint, PciConfigReader, TopologyEvidenceProvider, MAXIMUM_GPU_FINGERPRINTS,
    TOPOLOGY_BOOT_DISPLAY, TOPOLOGY_INTERNAL_PANEL,
};
use self::inventory::DisplayFunctionInventory;
use self::model::{
    CompatibilityOracle, DriverStrategy, ModelExpectation, OracleDecision, OracleError,
    OraclePolicy,
};
use self::model_weights::ModelWeights;
use self::registry::{RegistryError, ShimDescriptor, ShimRegistry};
use self::telemetry::{
    decision_event, fingerprint_event, resolution_events, terminal_event, DriverNetEvent,
    DriverNetEventKind, DriverNetObserver, ObserverTrace,
};
use crate::seal::{flag, Sealer};
use vstd::prelude::*;

verus! {

pub const MAXIMUM_GPUS: usize = MAXIMUM_GPU_FINGERPRINTS;

pub const MAXIMUM_EVENTS_PER_RESOLUTION: usize = MAXIMUM_ATTEMPTS + 1;

#[derive(Clone, Copy, Debug, PartialEq, Eq)]
pub struct DriverNetSecrets {
    pub fingerprint: u64,
    pub oracle: u64,
    pub dispatch: u64,
    pub telemetry: u64,
}

impl DriverNetSecrets {
    /// Whether every secret is set and no two are the same.
    #[verifier::allow_in_spec]
    pub fn valid(self) -> bool
        returns
            ({
                &&& self.fingerprint != 0
                &&& self.oracle != 0
                &&& self.dispatch != 0
                &&& self.telemetry != 0
                &&& self.fingerprint != self.oracle
                &&& self.fingerprint != self.dispatch
                &&& self.fingerprint != self.telemetry
                &&& self.oracle != self.dispatch
                &&& self.oracle != self.telemetry
                &&& self.dispatch != self.telemetry
            }),
    {
        self.fingerprint != 0 && self.oracle != 0 && self.dispatch != 0 && self.telemetry != 0
            && self.fingerprint != self.oracle && self.fingerprint != self.dispatch
            && self.fingerprint != self.telemetry && self.oracle != self.dispatch && self.oracle
            != self.telemetry && self.dispatch != self.telemetry
    }
}

#[derive(Clone, Copy, Debug, PartialEq, Eq, Structural)]
pub enum GpuResolutionStatus {
    Committed,
    Quarantined,
    Failed,
}

impl GpuResolutionStatus {
    #[verifier::allow_in_spec]
    pub fn code(self) -> u8
        returns
            (match self {
                GpuResolutionStatus::Committed => 0u8,
                GpuResolutionStatus::Quarantined => 1u8,
                GpuResolutionStatus::Failed => 2u8,
            }),
    {
        match self {
            GpuResolutionStatus::Committed => 0,
            GpuResolutionStatus::Quarantined => 1,
            GpuResolutionStatus::Failed => 2,
        }
    }
}

#[derive(Clone, Copy, Debug, PartialEq, Eq)]
pub struct GpuResolution {
    pub fingerprint: GpuFingerprint,
    pub strategy: DriverStrategy,
    pub status: GpuResolutionStatus,
    pub confidence_q16: u16,
    pub framebuffer_object: u64,
    pub driver_handle: u64,
    pub driver_generation: u32,
    pub decision_root: u64,
    pub resolution_root: u64,
    pub fault: FaultCode,
}

impl GpuResolution {
    #[verifier::allow_in_spec]
    pub fn display_available(self) -> bool
        returns
            self.status != GpuResolutionStatus::Failed && self.framebuffer_object != 0,
    {
        self.status != GpuResolutionStatus::Failed && self.framebuffer_object != 0
    }
}

#[derive(Clone, Debug, PartialEq, Eq)]
pub struct DriverNetSummary {
    pub resolutions: Vec<GpuResolution>,
    pub primary_index: Option<usize>,
    pub fingerprint_summary: FingerprintSummary,
    pub native_count: usize,
    pub firmware_count: usize,
    pub quarantined_count: usize,
    pub failed_count: usize,
    pub display_available: bool,
    pub summary_root: u64,
}

/// The words that a summary root seals for the first `upto` resolutions.
pub open spec fn summary_words(summary: DriverNetSummary, upto: int) -> Seq<u64>
    decreases upto,
{
    if upto <= 0 {
        seq![
            summary.resolutions@.len() as u64,
            (match summary.primary_index {
                Some(index) => index,
                None => usize::MAX,
            }) as u64,
            summary.fingerprint_summary.display_functions as u64,
            crate::seal::flag_word(summary.fingerprint_summary.inventory_overflowed),
            summary.fingerprint_summary.configuration_faults as u64,
            summary.native_count as u64,
            summary.firmware_count as u64,
            summary.quarantined_count as u64,
            summary.failed_count as u64,
            crate::seal::flag_word(summary.display_available),
        ]
    } else {
        let resolution = summary.resolutions@[upto - 1];
        summary_words(summary, upto - 1).push(resolution.fingerprint.evidence_root).push(
            resolution.strategy.index() as u64,
        ).push(resolution.status.code() as u64).push(resolution.confidence_q16 as u64).push(
            resolution.framebuffer_object,
        ).push(resolution.driver_handle).push(resolution.driver_generation as u64).push(
            resolution.decision_root,
        ).push(resolution.resolution_root).push(resolution.fault.code() as u64)
    }
}

pub open spec fn summary_root_of(secret: u64, summary: DriverNetSummary) -> u64 {
    crate::seal::seal_of(secret, summary_words(summary, summary.resolutions@.len() as int))
}

fn summary_root(secret: u64, summary: &DriverNetSummary) -> (root: u64)
    ensures
        root == summary_root_of(secret, *summary),
{
    let primary: usize = match summary.primary_index {
        Some(index) => index,
        None => usize::MAX,
    };
    let mut sealer = Sealer::new(secret).word(summary.resolutions.len() as u64).word(
        primary as u64,
    ).word(summary.fingerprint_summary.display_functions as u64).word(
        flag(summary.fingerprint_summary.inventory_overflowed),
    ).word(summary.fingerprint_summary.configuration_faults as u64).word(
        summary.native_count as u64,
    ).word(summary.firmware_count as u64).word(summary.quarantined_count as u64).word(
        summary.failed_count as u64,
    ).word(flag(summary.display_available));
    let mut index: usize = 0;
    while index < summary.resolutions.len()
        invariant
            index <= summary.resolutions@.len(),
            sealer.seed() == secret,
            sealer.words() =~= summary_words(*summary, index as int),
        decreases summary.resolutions@.len() - index,
    {
        let resolution = summary.resolutions[index];
        sealer = sealer.word(resolution.fingerprint.evidence_root).word(
            resolution.strategy.index() as u64,
        ).word(resolution.status.code() as u64).word(resolution.confidence_q16 as u64).word(
            resolution.framebuffer_object,
        ).word(resolution.driver_handle).word(resolution.driver_generation as u64).word(
            resolution.decision_root,
        ).word(resolution.resolution_root).word(resolution.fault.code() as u64);
        index += 1;
    }
    sealer.root()
}

impl DriverNetSummary {
    pub fn resolutions(&self) -> (resolutions: &[GpuResolution])
        ensures
            resolutions@ == self.resolutions@,
    {
        self.resolutions.as_slice()
    }

    pub fn primary(&self) -> (primary: Option<&GpuResolution>)
        ensures
            match self.primary_index {
                Some(index) => if index < self.resolutions@.len() {
                    primary matches Some(found) && *found == self.resolutions@[index as int]
                } else {
                    primary is None
                },
                None => primary is None,
            },
    {
        match self.primary_index {
            Some(index) => if index < self.resolutions.len() {
                Some(&self.resolutions[index])
            } else {
                None
            },
            None => None,
        }
    }

    /// Whether a summary is within bounds and holds its own seal.
    pub open spec fn verified(self, secret: u64) -> bool {
        &&& self.resolutions@.len() <= MAXIMUM_GPUS
        &&& self.primary_index matches Some(index) ==> index < self.resolutions@.len()
        &&& self.summary_root == summary_root_of(secret, self)
    }

    pub fn verify(&self, secret: u64) -> (verified: bool)
        ensures
            verified == self.verified(secret),
    {
        let bounded = match self.primary_index {
            Some(index) => index < self.resolutions.len(),
            None => true,
        };
        self.resolutions.len() <= MAXIMUM_GPUS && bounded && self.summary_root == summary_root(
            secret,
            self,
        )
    }
}

#[derive(Clone, Copy, Debug, PartialEq, Eq, Structural)]
pub enum DriverNetError {
    InvalidSecrets,
    Fingerprint(FingerprintError),
    Oracle(OracleError),
    Registry(RegistryError),
    Dispatch,
}

impl From<FingerprintError> for DriverNetError {
    fn from(error: FingerprintError) -> (converted: Self) {
        DriverNetError::Fingerprint(error)
    }
}

impl vstd::std_specs::convert::FromSpecImpl<FingerprintError> for DriverNetError {
    open spec fn obeys_from_spec() -> bool {
        true
    }

    open spec fn from_spec(error: FingerprintError) -> Self {
        DriverNetError::Fingerprint(error)
    }
}

impl From<OracleError> for DriverNetError {
    fn from(error: OracleError) -> (converted: Self) {
        DriverNetError::Oracle(error)
    }
}

impl vstd::std_specs::convert::FromSpecImpl<OracleError> for DriverNetError {
    open spec fn obeys_from_spec() -> bool {
        true
    }

    open spec fn from_spec(error: OracleError) -> Self {
        DriverNetError::Oracle(error)
    }
}

impl From<RegistryError> for DriverNetError {
    fn from(error: RegistryError) -> (converted: Self) {
        DriverNetError::Registry(error)
    }
}

impl vstd::std_specs::convert::FromSpecImpl<RegistryError> for DriverNetError {
    open spec fn obeys_from_spec() -> bool {
        true
    }

    open spec fn from_spec(error: RegistryError) -> Self {
        DriverNetError::Registry(error)
    }
}

/// Room for the fingerprints of one run.
pub struct DriverNetScratch {
    pub fingerprints: Vec<GpuFingerprint>,
}

impl DriverNetScratch {
    pub open spec fn blank(self) -> bool {
        &&& self.fingerprints@.len() == MAXIMUM_GPUS
        &&& forall|i: int|
            0 <= i < MAXIMUM_GPUS ==> (#[trigger] self.fingerprints@[i]).is_empty()
    }

    pub fn new() -> (scratch: Self)
        ensures
            scratch.blank(),
    {
        let mut fingerprints: Vec<GpuFingerprint> = Vec::new();
        while fingerprints.len() < MAXIMUM_GPUS
            invariant
                fingerprints@.len() <= MAXIMUM_GPUS,
                forall|i: int|
                    0 <= i < fingerprints@.len() ==> (#[trigger] fingerprints@[i]).is_empty(),
            decreases MAXIMUM_GPUS - fingerprints@.len(),
        {
            fingerprints.push(GpuFingerprint::empty());
        }
        DriverNetScratch { fingerprints }
    }
}

impl Default for DriverNetScratch {
    fn default() -> (scratch: Self)
        ensures
            scratch.blank(),
    {
        DriverNetScratch::new()
    }
}

/// What a resolution comes down to.
pub open spec fn compacted(
    fingerprint: GpuFingerprint,
    decision: OracleDecision,
    resolution: DispatchResolution,
) -> GpuResolution {
    GpuResolution {
        fingerprint,
        strategy: resolution.active_strategy,
        status: if resolution.active_strategy == DriverStrategy::Quarantine {
            GpuResolutionStatus::Quarantined
        } else {
            GpuResolutionStatus::Committed
        },
        confidence_q16: decision.confidence_q16,
        framebuffer_object: resolution.lease.framebuffer_object,
        driver_handle: resolution.lease.handle,
        driver_generation: resolution.lease.generation,
        decision_root: decision.decision_root,
        resolution_root: resolution.resolution_root,
        fault: FaultCode::Clear,
    }
}

pub fn compact_resolution(
    fingerprint: GpuFingerprint,
    decision: &OracleDecision,
    resolution: &DispatchResolution,
) -> (compact: GpuResolution)
    ensures
        compact == compacted(fingerprint, *decision, *resolution),
{
    GpuResolution {
        fingerprint,
        strategy: resolution.active_strategy,
        status: if resolution.active_strategy == DriverStrategy::Quarantine {
            GpuResolutionStatus::Quarantined
        } else {
            GpuResolutionStatus::Committed
        },
        confidence_q16: decision.confidence_q16,
        framebuffer_object: resolution.lease.framebuffer_object,
        driver_handle: resolution.lease.handle,
        driver_generation: resolution.lease.generation,
        decision_root: decision.decision_root,
        resolution_root: resolution.resolution_root,
        fault: FaultCode::Clear,
    }
}

/// What a dispatch that failed comes down to.
#[verifier::allow_in_spec]
pub fn failed_resolution(
    fingerprint: GpuFingerprint,
    decision: &OracleDecision,
    fault: FaultCode,
) -> GpuResolution
    returns
        (GpuResolution {
            fingerprint,
            strategy: DriverStrategy::Quarantine,
            status: GpuResolutionStatus::Failed,
            confidence_q16: decision.confidence_q16,
            framebuffer_object: 0,
            driver_handle: 0,
            driver_generation: 0,
            decision_root: decision.decision_root,
            resolution_root: 0,
            fault,
        }),
{
    GpuResolution {
        fingerprint,
        strategy: DriverStrategy::Quarantine,
        status: GpuResolutionStatus::Failed,
        confidence_q16: decision.confidence_q16,
        framebuffer_object: 0,
        driver_handle: 0,
        driver_generation: 0,
        decision_root: decision.decision_root,
        resolution_root: 0,
        fault,
    }
}

#[verifier::allow_in_spec]
pub fn dispatch_fault(error: &DispatchError) -> FaultCode
    returns
        (match error {
            DispatchError::CorruptDecision => FaultCode::DecisionCorrupt,
            DispatchError::FingerprintMismatch => FaultCode::FingerprintMismatch,
            DispatchError::Registry(_) => FaultCode::RegistryFault,
            DispatchError::TimeRegression => FaultCode::TimeRegression,
            DispatchError::NoSafeStrategy { .. } => FaultCode::NoSafeStrategy,
        }),
{
    match error {
        DispatchError::CorruptDecision => FaultCode::DecisionCorrupt,
        DispatchError::FingerprintMismatch => FaultCode::FingerprintMismatch,
        DispatchError::Registry(_) => FaultCode::RegistryFault,
        DispatchError::TimeRegression => FaultCode::TimeRegression,
        DispatchError::NoSafeStrategy { .. } => FaultCode::NoSafeStrategy,
    }
}

/// How the strategies weigh when the primary display is chosen.
#[verifier::allow_in_spec]
pub fn strategy_primary_weight(strategy: DriverStrategy) -> i64
    returns
        (match strategy {
            DriverStrategy::HermesNvidia => 100_000i64,
            DriverStrategy::AmdDisplay => 100_000i64,
            DriverStrategy::IntelDisplay => 100_000i64,
            DriverStrategy::VirtioGpu => 80_000i64,
            DriverStrategy::VirtualSvga => 80_000i64,
            DriverStrategy::FirmwareFramebuffer => 40_000i64,
            DriverStrategy::Quarantine => 0i64,
        }),
{
    match strategy {
        DriverStrategy::HermesNvidia => 100_000,
        DriverStrategy::AmdDisplay => 100_000,
        DriverStrategy::IntelDisplay => 100_000,
        DriverStrategy::VirtioGpu => 80_000,
        DriverStrategy::VirtualSvga => 80_000,
        DriverStrategy::FirmwareFramebuffer => 40_000,
        DriverStrategy::Quarantine => 0,
    }
}

/// How a display competes for being primary: the boot display first, then an
/// internal panel, then confidence and strategy.
pub open spec fn primary_score_of(resolution: GpuResolution) -> int {
    (if resolution.fingerprint.topology_flags & TOPOLOGY_BOOT_DISPLAY != 0 {
        1_000_000int
    } else {
        0int
    }) + (if resolution.fingerprint.topology_flags & TOPOLOGY_INTERNAL_PANEL != 0 {
        500_000int
    } else {
        0int
    }) + resolution.confidence_q16 + strategy_primary_weight(resolution.strategy)
}

fn primary_score(resolution: &GpuResolution) -> (score: i64)
    ensures
        score == primary_score_of(*resolution),
{
    let boot: i64 = if resolution.fingerprint.topology_flags & TOPOLOGY_BOOT_DISPLAY != 0 {
        1_000_000
    } else {
        0
    };
    let panel: i64 = if resolution.fingerprint.topology_flags & TOPOLOGY_INTERNAL_PANEL != 0 {
        500_000
    } else {
        0
    };
    boot + panel + resolution.confidence_q16 as i64 + strategy_primary_weight(resolution.strategy)
}

/// Whether a choice is the primary: the available display with the highest
/// score, the first of those that tie, and none where no display is available.
pub open spec fn is_primary(resolutions: Seq<GpuResolution>, primary: Option<usize>) -> bool {
    match primary {
        Some(index) => {
            &&& index < resolutions.len()
            &&& resolutions[index as int].display_available()
            &&& forall|i: int|
                0 <= i < resolutions.len() && (#[trigger] resolutions[i]).display_available()
                    ==> primary_score_of(resolutions[i]) < primary_score_of(
                    resolutions[index as int],
                ) || (primary_score_of(resolutions[i]) == primary_score_of(
                    resolutions[index as int],
                ) && index <= i)
        },
        None => forall|i: int|
            0 <= i < resolutions.len() ==> !(#[trigger] resolutions[i]).display_available(),
    }
}

pub fn select_primary(resolutions: &[GpuResolution]) -> (primary: Option<usize>)
    ensures
        is_primary(resolutions@, primary),
{
    let mut selected: Option<usize> = None;
    let mut selected_score: i64 = i64::MIN;
    let mut index: usize = 0;
    while index < resolutions.len()
        invariant
            index <= resolutions@.len(),
            is_primary(resolutions@.take(index as int), selected),
            selected is None ==> selected_score == i64::MIN,
            selected matches Some(at) ==> at < index && selected_score == primary_score_of(
                resolutions@[at as int],
            ),
        decreases resolutions@.len() - index,
    {
        let ghost shown = resolutions@.take(index as int);
        let ghost grown = resolutions@.take(index + 1);
        assert forall|i: int| 0 <= i < index implies #[trigger] grown[i] == shown[i] by {}
        assert(grown[index as int] == resolutions@[index as int]);
        if resolutions[index].display_available() {
            let score: i64 = primary_score(&resolutions[index]);
            if score > selected_score {
                selected = Some(index);
                selected_score = score;
            }
        }
        index += 1;
    }
    assert(resolutions@.take(index as int) =~= resolutions@);
    selected
}

/// How many resolutions have a status and count as firmware or not.
pub open spec fn resolution_count(
    resolutions: Seq<GpuResolution>,
    status: GpuResolutionStatus,
    firmware: bool,
) -> nat
    decreases resolutions.len(),
{
    if resolutions.len() == 0 {
        0
    } else {
        resolution_count(resolutions.drop_last(), status, firmware) + if resolutions.last().status
            == status && (resolutions.last().strategy == DriverStrategy::FirmwareFramebuffer)
            == firmware {
            1nat
        } else {
            0nat
        }
    }
}

/// Whether a summary counts its resolutions.
pub open spec fn counts_resolutions(summary: DriverNetSummary) -> bool {
    let all = summary.resolutions@;
    &&& summary.native_count == resolution_count(all, GpuResolutionStatus::Committed, false)
    &&& summary.firmware_count == resolution_count(all, GpuResolutionStatus::Committed, true)
    &&& summary.quarantined_count == resolution_count(all, GpuResolutionStatus::Quarantined, false)
        + resolution_count(all, GpuResolutionStatus::Quarantined, true)
    &&& summary.failed_count == resolution_count(all, GpuResolutionStatus::Failed, false)
        + resolution_count(all, GpuResolutionStatus::Failed, true)
}

/// Takes one more resolution into a summary.
pub fn update_counts(summary: &mut DriverNetSummary, resolution: GpuResolution)
    requires
        old(summary).resolutions@.len() < MAXIMUM_GPUS,
        counts_resolutions(*old(summary)),
    ensures
        counts_resolutions(*final(summary)),
        final(summary).resolutions@ == old(summary).resolutions@.push(resolution),
        final(summary).primary_index == old(summary).primary_index,
        final(summary).fingerprint_summary == old(summary).fingerprint_summary,
        final(summary).display_available == old(summary).display_available,
        final(summary).summary_root == old(summary).summary_root,
{
    proof {
        lemma_counts_are_bounded(summary.resolutions@, GpuResolutionStatus::Committed);
        lemma_counts_are_bounded(summary.resolutions@, GpuResolutionStatus::Quarantined);
        lemma_counts_are_bounded(summary.resolutions@, GpuResolutionStatus::Failed);
        assert(summary.resolutions@.push(resolution).drop_last() =~= summary.resolutions@);
    }
    match resolution.status {
        GpuResolutionStatus::Committed => {
            if resolution.strategy == DriverStrategy::FirmwareFramebuffer {
                summary.firmware_count = summary.firmware_count.saturating_add(1);
            } else {
                summary.native_count = summary.native_count.saturating_add(1);
            }
        },
        GpuResolutionStatus::Quarantined => {
            summary.quarantined_count = summary.quarantined_count.saturating_add(1);
        },
        GpuResolutionStatus::Failed => {
            summary.failed_count = summary.failed_count.saturating_add(1);
        },
    }
    summary.resolutions.push(resolution);
}

proof fn lemma_counts_are_bounded(resolutions: Seq<GpuResolution>, status: GpuResolutionStatus)
    ensures
        resolution_count(resolutions, status, false) + resolution_count(resolutions, status, true)
            <= resolutions.len(),
    decreases resolutions.len(),
{
    if resolutions.len() > 0 {
        lemma_counts_are_bounded(resolutions.drop_last(), status);
    }
}

/// The event that reports dropped functions.
pub open spec fn overflow_event_of(
    secret: u64,
    tick: u64,
    listed: int,
    summary: FingerprintSummary,
) -> DriverNetEvent {
    (DriverNetEvent {
        tick,
        kind: DriverNetEventKind::InventoryOverflow,
        severity: 4,
        strategy: DriverStrategy::Quarantine,
        address: 0,
        fingerprint_root: 0,
        decision_root: 0,
        data0: listed as u64,
        data1: summary.display_functions as u64,
        root: 0,
    }).sealed(secret)
}

/// The event that reports configuration faults.
pub open spec fn faults_event_of(
    secret: u64,
    tick: u64,
    summary: FingerprintSummary,
) -> DriverNetEvent {
    (DriverNetEvent {
        tick,
        kind: DriverNetEventKind::ConfigurationIncomplete,
        severity: 3,
        strategy: DriverStrategy::Quarantine,
        address: 0,
        fingerprint_root: 0,
        decision_root: 0,
        data0: summary.configuration_faults as u64,
        data1: summary.display_functions as u64,
        root: 0,
    }).sealed(secret)
}

/// The event that names the primary display.
pub open spec fn primary_event_of(
    secret: u64,
    tick: u64,
    primary: GpuResolution,
) -> DriverNetEvent {
    (DriverNetEvent {
        tick,
        kind: DriverNetEventKind::PrimarySelected,
        severity: if primary.display_available() {
            0
        } else {
            1
        },
        strategy: primary.strategy,
        address: telemetry::packed_address(&primary.fingerprint),
        fingerprint_root: primary.fingerprint.evidence_root,
        decision_root: primary.decision_root,
        data0: primary.framebuffer_object,
        data1: primary.resolution_root,
        root: 0,
    }).sealed(secret)
}

/// What is told before the first display: dropped functions, then faults.
pub open spec fn opening_run(
    secret: u64,
    listed: int,
    summary: FingerprintSummary,
    log: Seq<BackendEvent>,
    at: int,
) -> Option<(Seq<DriverNetEvent>, int)> {
    let dropped = if summary.inventory_overflowed {
        match dispatch::tick_at(log, at) {
            None => None,
            Some(tick) => Some((seq![overflow_event_of(secret, tick, listed, summary)], at + 1)),
        }
    } else {
        Some((Seq::empty(), at))
    };
    match dropped {
        None => None,
        Some((told, next)) => if summary.configuration_faults != 0 {
            match dispatch::tick_at(log, next) {
                None => None,
                Some(tick) => Some((told.push(faults_event_of(secret, tick, summary)), next + 1)),
            }
        } else {
            Some((told, next))
        },
    }
}

/// What happened to one display: the decision about it, how its dispatch
/// ended, the dispatcher afterwards, what was told of it and where the
/// transcript stood.
pub struct GpuStep {
    pub decision: OracleDecision,
    pub result: Result<DispatchResolution, DispatchError>,
    pub after: DriverDispatcher,
    pub compact: GpuResolution,
    pub told: Seq<DriverNetEvent>,
    pub end: int,
}

/// The drivers, secrets and model that one run works with.
pub struct DriverNet {
    pub secrets: DriverNetSecrets,
    pub oracle: CompatibilityOracle,
    pub registry: ShimRegistry,
    pub dispatcher: DriverDispatcher,
}

impl DriverNet {
    pub open spec fn wf(&self) -> bool {
        &&& self.secrets.valid()
        &&& self.registry.wf()
        &&& self.oracle.secret == self.secrets.oracle
        &&& self.dispatcher.secret == self.secrets.dispatch
        &&& self.dispatcher.decision_secret == self.secrets.oracle
        &&& self.dispatcher.model == ModelExpectation::compiled(&self.oracle.model)
    }

    /// Whether a step is what one display comes to, from a dispatcher and a
    /// place of the transcript on.
    #[verifier::opaque]
    pub open spec fn steps_through(
        &self,
        before: DriverDispatcher,
        fingerprint: GpuFingerprint,
        step: GpuStep,
        log: Seq<BackendEvent>,
        from: int,
    ) -> bool {
        let secret = self.secrets.telemetry;
        &&& dispatch::tick_at(log, from) matches Some(first) && dispatch::tick_at(
            log,
            from + 1,
        ) matches Some(second) && {
            let told = seq![
                telemetry::fingerprint_event_of(secret, first, fingerprint),
                telemetry::decision_event_of(secret, second, fingerprint, step.decision),
            ];
            &&& model::decides(
                step.decision,
                self.oracle.model,
                self.oracle.policy,
                self.oracle.secret,
                fingerprint,
            )
            &&& match step.result {
                Ok(resolution) => {
                    &&& before.resolves(
                        step.after,
                        step.result,
                        fingerprint,
                        step.decision,
                        self.registry@,
                        log,
                        from + 2,
                        step.end,
                    )
                    &&& step.compact == compacted(fingerprint, step.decision, resolution)
                    &&& step.told == told + telemetry::resolution_events_of(
                        secret,
                        fingerprint,
                        resolution,
                    )
                },
                Err(error) => {
                    &&& before.resolves(
                        step.after,
                        step.result,
                        fingerprint,
                        step.decision,
                        self.registry@,
                        log,
                        from + 2,
                        step.end - 1,
                    )
                    &&& step.compact == failed_resolution(
                        fingerprint,
                        &step.decision,
                        dispatch_fault(&error),
                    )
                    &&& dispatch::tick_at(log, step.end - 1) matches Some(third) && step.told
                        == told.push(
                        telemetry::terminal_event_of(
                            secret,
                            third,
                            DriverNetEventKind::Quarantine,
                            DriverStrategy::Quarantine,
                            fingerprint,
                            step.decision.decision_root,
                            dispatch_fault(&error),
                            0,
                        ),
                    )
                },
            }
        }
    }

    /// Whether steps follow each other over the first displays.
    pub open spec fn steps_follow(
        &self,
        fingerprints: Seq<GpuFingerprint>,
        steps: Seq<GpuStep>,
        log: Seq<BackendEvent>,
        from: int,
    ) -> bool {
        forall|k: int|
            #![trigger steps[k]]
            0 <= k < steps.len() ==> self.steps_through(
                dispatcher_before(self.dispatcher, steps, k),
                fingerprints[k],
                steps[k],
                log,
                place_before(from, steps, k),
            )
    }

    /// Whether a summary is what the steps amount to, with the telemetry that
    /// closes the run.
    pub open spec fn concludes(
        &self,
        result: Result<DriverNetSummary, DriverNetError>,
        measured: FingerprintSummary,
        fingerprints: Seq<GpuFingerprint>,
        steps: Seq<GpuStep>,
        opening: Seq<DriverNetEvent>,
        told: Seq<DriverNetEvent>,
        log: Seq<BackendEvent>,
        from: int,
    ) -> bool {
        let secret = self.secrets.telemetry;
        &&& steps.len() == measured.length
        &&& self.steps_follow(fingerprints, steps, log, from)
        &&& result matches Ok(summary) && {
            &&& summary.resolutions@ == steps.map_values(|step: GpuStep| step.compact)
            &&& summary.fingerprint_summary == measured
            &&& counts_resolutions(summary)
            &&& is_primary(summary.resolutions@, summary.primary_index)
            &&& summary.display_available == (summary.primary_index is Some)
            &&& summary.verified(self.secrets.dispatch)
            &&& place_before(from, steps, steps.len() as int) + 1 == log.len()
            &&& dispatch::tick_at(log, log.len() - 1) matches Some(tick) && told == opening
                + told_through(steps, steps.len() as int).push(
                closing_event_of(
                    secret,
                    tick,
                    summary.resolutions@,
                    summary.primary_index,
                    fingerprints[0],
                ),
            )
        }
    }
}

pub open spec fn dispatcher_before(
    initial: DriverDispatcher,
    steps: Seq<GpuStep>,
    k: int,
) -> DriverDispatcher {
    if k <= 0 {
        initial
    } else {
        steps[k - 1].after
    }
}

pub open spec fn place_before(from: int, steps: Seq<GpuStep>, k: int) -> int {
    if k <= 0 {
        from
    } else {
        steps[k - 1].end
    }
}

/// Everything that the first `upto` steps told.
pub open spec fn told_through(steps: Seq<GpuStep>, upto: int) -> Seq<DriverNetEvent>
    decreases upto,
{
    if upto <= 0 {
        Seq::empty()
    } else {
        told_through(steps, upto - 1) + steps[upto - 1].told
    }
}

/// What comes of valid secrets and a model that was measured: a net over the
/// laboratory registry that has resolved nothing, or what the registry refuses
/// the two descriptors with.
pub open spec fn starts(
    secrets: DriverNetSecrets,
    policy: OraclePolicy,
    model: ModelWeights,
    hermes: ShimDescriptor,
    intel: ShimDescriptor,
    result: Result<DriverNet, DriverNetError>,
) -> bool {
    if !hermes.well_described() || !intel.well_described() {
        result == Err::<DriverNet, _>(DriverNetError::Registry(RegistryError::InvalidDescriptor))
    } else if !registry::take_the_free_strategies(hermes, intel) {
        result == Err::<DriverNet, _>(DriverNetError::Registry(RegistryError::DuplicateStrategy))
    } else {
        result matches Ok(net) && {
            &&& net.wf()
            &&& net.secrets == secrets
            &&& net.oracle.policy == policy
            &&& net.oracle.model == model
            &&& net.registry.is_black_lab(hermes, intel)
            &&& net.dispatcher.last_tick == 0
            &&& net.dispatcher.totals() == (0u64, 0u64)
        }
    }
}

impl DriverNet {
    pub fn new(
        secrets: DriverNetSecrets,
        policy: OraclePolicy,
        model: ModelWeights,
        hermes: ShimDescriptor,
        intel: ShimDescriptor,
    ) -> (result: Result<Self, DriverNetError>)
        ensures
            if !secrets.valid() {
                result == Err::<Self, _>(DriverNetError::InvalidSecrets)
            } else {
                starts(secrets, policy, model, hermes, intel, result)
            },
    {
        let expectation = ModelExpectation::compiled(&model);
        Self::new_measured(secrets, policy, expectation, model, hermes, intel)
    }

    pub fn new_measured(
        secrets: DriverNetSecrets,
        policy: OraclePolicy,
        expectation: ModelExpectation,
        model: ModelWeights,
        hermes: ShimDescriptor,
        intel: ShimDescriptor,
    ) -> (result: Result<Self, DriverNetError>)
        ensures
            if !secrets.valid() {
                result == Err::<Self, _>(DriverNetError::InvalidSecrets)
            } else if !expectation.matches_compiled(&model) {
                result == Err::<Self, _>(DriverNetError::Oracle(OracleError::ModelAuthority))
            } else {
                starts(secrets, policy, model, hermes, intel, result)
            },
    {
        if !secrets.valid() {
            return Err(DriverNetError::InvalidSecrets);
        }
        let identity = ModelExpectation::compiled(&model);
        let oracle = match CompatibilityOracle::new_with_expectation(
            secrets.oracle,
            policy,
            expectation,
            model,
        ) {
            Ok(oracle) => oracle,
            Err(error) => {
                return Err(DriverNetError::Oracle(error));
            },
        };
        let registry = match ShimRegistry::black_lab(hermes, intel) {
            Ok(registry) => registry,
            Err(error) => {
                return Err(DriverNetError::Registry(error));
            },
        };
        let dispatcher = match DriverDispatcher::new(secrets.dispatch, secrets.oracle, identity) {
            Ok(dispatcher) => dispatcher,
            Err(_) => {
                return Err(DriverNetError::Dispatch);
            },
        };
        Ok(DriverNet { secrets, oracle, registry, dispatcher })
    }

    pub fn oracle(&self) -> (oracle: &CompatibilityOracle)
        ensures
            *oracle == self.oracle,
    {
        &self.oracle
    }

    pub fn registry(&self) -> (registry: &ShimRegistry)
        ensures
            *registry == self.registry,
    {
        &self.registry
    }

    #[verifier::allow_in_spec]
    pub fn totals(&self) -> (u64, u64)
        returns
            self.dispatcher.totals(),
    {
        self.dispatcher.totals()
    }

    fn observe_resolution<O: DriverNetObserver>(
        &self,
        fingerprint: &GpuFingerprint,
        resolution: &DispatchResolution,
        observer: &mut ObserverTrace<O>,
    )
        requires
            resolution.attempts@.len() <= MAXIMUM_ATTEMPTS,
        ensures
            final(observer).told() == old(observer).told() + telemetry::resolution_events_of(
                self.secrets.telemetry,
                *fingerprint,
                *resolution,
            ),
    {
        let ghost before = observer.told();
        let ghost all = telemetry::resolution_events_of(
            self.secrets.telemetry,
            *fingerprint,
            *resolution,
        );
        let mut events: Vec<DriverNetEvent> = Vec::new();
        while events.len() < MAXIMUM_EVENTS_PER_RESOLUTION
            invariant
                events@.len() <= MAXIMUM_EVENTS_PER_RESOLUTION,
            decreases MAXIMUM_EVENTS_PER_RESOLUTION - events@.len(),
        {
            events.push(DriverNetEvent::empty());
        }
        let length: usize = resolution_events(
            self.secrets.telemetry,
            fingerprint,
            resolution,
            events.as_mut_slice(),
        );
        assert(length == all.len());
        let mut index: usize = 0;
        while index < length
            invariant
                index <= length,
                length == all.len(),
                length <= events@.len(),
                forall|i: int| 0 <= i < length ==> events@[i] == all[i],
                observer.told() =~= before + all.take(index as int),
            decreases length - index,
        {
            observer.observe(events[index]);
            index += 1;
        }
        assert(all.take(length as int) =~= all);
    }

    /// Tells what went missing before the first display.
    fn open_run<B: DriverNetBackend, O: DriverNetObserver>(
        &self,
        listed: usize,
        measured: FingerprintSummary,
        backend: &mut BackendTrace<B>,
        observer: &mut ObserverTrace<O>,
    ) -> (opening: Ghost<Seq<DriverNetEvent>>)
        ensures
            crate::trace::continues(final(backend).log(), old(backend).log()),
            final(observer).told() == old(observer).told() + opening@,
            forall|log: Seq<BackendEvent>| #[trigger]
                crate::trace::continues(log, final(backend).log()) ==> opening_run(
                    self.secrets.telemetry,
                    listed as int,
                    measured,
                    log,
                    old(backend).log().len() as int,
                ) == Some((opening@, final(backend).log().len() as int)),
    {
        let ghost mut opening = Seq::<DriverNetEvent>::empty();
        if measured.inventory_overflowed {
            let tick: u64 = backend.now_tick();
            let mut event = DriverNetEvent {
                tick,
                kind: DriverNetEventKind::InventoryOverflow,
                severity: 4,
                strategy: DriverStrategy::Quarantine,
                address: 0,
                fingerprint_root: 0,
                decision_root: 0,
                data0: listed as u64,
                data1: measured.display_functions as u64,
                root: 0,
            };
            event.seal(self.secrets.telemetry);
            observer.observe(event);
            proof {
                opening = seq![event];
            }
        }
        if measured.configuration_faults != 0 {
            let tick: u64 = backend.now_tick();
            let mut event = DriverNetEvent {
                tick,
                kind: DriverNetEventKind::ConfigurationIncomplete,
                severity: 3,
                strategy: DriverStrategy::Quarantine,
                address: 0,
                fingerprint_root: 0,
                decision_root: 0,
                data0: measured.configuration_faults as u64,
                data1: measured.display_functions as u64,
                root: 0,
            };
            event.seal(self.secrets.telemetry);
            observer.observe(event);
            proof {
                opening = opening.push(event);
            }
        }
        assert(observer.told() =~= old(observer).told() + opening);
        Ghost(opening)
    }

    /// Decides about one display and activates it.
    fn resolve_one<B: DriverNetBackend, O: DriverNetObserver>(
        &mut self,
        fingerprint: &GpuFingerprint,
        backend: &mut BackendTrace<B>,
        observer: &mut ObserverTrace<O>,
    ) -> (outcome: (Result<GpuResolution, OracleError>, Ghost<GpuStep>))
        requires
            old(self).wf(),
        ensures
            final(self).wf(),
            final(self).secrets == old(self).secrets,
            final(self).oracle == old(self).oracle,
            final(self).registry == old(self).registry,
            crate::trace::continues(final(backend).log(), old(backend).log()),
            crate::trace::continues(final(observer).told(), old(observer).told()),
            fingerprint.evidence_root == 0 ==> {
                &&& outcome.0 == Err::<GpuResolution, _>(OracleError::InvalidFingerprint)
                &&& final(self).dispatcher == old(self).dispatcher
                &&& final(backend).log().len() == old(backend).log().len() + 1
                &&& dispatch::tick_at(
                    final(backend).log(),
                    old(backend).log().len() as int,
                ) matches Some(tick) && final(observer).told() == old(observer).told().push(
                    telemetry::fingerprint_event_of(
                        old(self).secrets.telemetry,
                        tick,
                        *fingerprint,
                    ),
                )
            },
            fingerprint.evidence_root != 0 ==> {
                let step = outcome.1@;
                &&& outcome.0 == Ok::<GpuResolution, OracleError>(step.compact)
                &&& step.after == final(self).dispatcher
                &&& step.end == final(backend).log().len()
                &&& final(observer).told() == old(observer).told() + step.told
                &&& forall|log: Seq<BackendEvent>| #[trigger]
                    crate::trace::continues(log, final(backend).log()) ==> old(
                        self,
                    ).steps_through(
                        old(self).dispatcher,
                        *fingerprint,
                        step,
                        log,
                        old(backend).log().len() as int,
                    )
            },
    {
        proof {
            reveal(DriverNet::steps_through);
        }
        let ghost before = self.dispatcher;
        let ghost told0 = observer.told();
        let first: u64 = backend.now_tick();
        observer.observe(fingerprint_event(self.secrets.telemetry, first, fingerprint));
        let decision = match self.oracle.classify(fingerprint) {
            Ok(decision) => decision,
            Err(error) => {
                return (
                    Err(error),
                    Ghost(
                        GpuStep {
                            decision: arbitrary(),
                            result: arbitrary(),
                            after: before,
                            compact: arbitrary(),
                            told: Seq::empty(),
                            end: 0,
                        },
                    ),
                );
            },
        };
        let second: u64 = backend.now_tick();
        observer.observe(decision_event(self.secrets.telemetry, second, fingerprint, &decision));
        let ghost asked = backend.log();
        let ghost announced = observer.told();
        let result = self.dispatcher.resolve(fingerprint, &decision, &self.registry, backend);
        let ghost resolved = backend.log();
        let ghost reported = result;
        proof {
            assert(crate::trace::continues(resolved, resolved));
            assert forall|log: Seq<BackendEvent>| #[trigger]
                crate::trace::continues(log, resolved) implies crate::trace::continues(
                log,
                asked,
            ) by {}
        }
        match result {
            Ok(resolution) => {
                proof {
                    dispatch::law_a_resolution_verifies(
                        before,
                        self.dispatcher,
                        resolution,
                        *fingerprint,
                        decision,
                        self.registry@,
                        resolved,
                        asked.len() as int,
                        resolved.len() as int,
                    );
                }
                self.observe_resolution(fingerprint, &resolution, observer);
                let compact = compact_resolution(*fingerprint, &decision, &resolution);
                let ghost step = GpuStep {
                    decision,
                    result: reported,
                    after: self.dispatcher,
                    compact,
                    told: seq![
                        telemetry::fingerprint_event_of(
                            self.secrets.telemetry,
                            first,
                            *fingerprint,
                        ),
                        telemetry::decision_event_of(
                            self.secrets.telemetry,
                            second,
                            *fingerprint,
                            decision,
                        ),
                    ] + telemetry::resolution_events_of(
                        self.secrets.telemetry,
                        *fingerprint,
                        resolution,
                    ),
                    end: resolved.len() as int,
                };
                assert(observer.told() =~= told0 + step.told);
                (Ok(compact), Ghost(step))
            },
            Err(error) => {
                let fault = dispatch_fault(&error);
                let third: u64 = backend.now_tick();
                observer.observe(
                    terminal_event(
                        self.secrets.telemetry,
                        third,
                        DriverNetEventKind::Quarantine,
                        DriverStrategy::Quarantine,
                        fingerprint,
                        decision.decision_root,
                        fault,
                        0,
                    ),
                );
                let compact = failed_resolution(*fingerprint, &decision, fault);
                let ghost step = GpuStep {
                    decision,
                    result: reported,
                    after: self.dispatcher,
                    compact,
                    told: seq![
                        telemetry::fingerprint_event_of(
                            self.secrets.telemetry,
                            first,
                            *fingerprint,
                        ),
                        telemetry::decision_event_of(
                            self.secrets.telemetry,
                            second,
                            *fingerprint,
                            decision,
                        ),
                    ].push(
                        telemetry::terminal_event_of(
                            self.secrets.telemetry,
                            third,
                            DriverNetEventKind::Quarantine,
                            DriverStrategy::Quarantine,
                            *fingerprint,
                            decision.decision_root,
                            fault,
                            0,
                        ),
                    ),
                    end: backend.log().len() as int,
                };
                assert(observer.told() =~= told0 + step.told);
                assert forall|log: Seq<BackendEvent>| #[trigger]
                    crate::trace::continues(log, backend.log()) implies crate::trace::continues(
                    log,
                    resolved,
                ) by {}
                (Ok(compact), Ghost(step))
            },
        }
    }
}

impl DriverNet {
    /// Whether a run may have ended so, after some steps.
    pub open spec fn concluded(
        &self,
        result: Result<DriverNetSummary, DriverNetError>,
        after: DriverDispatcher,
        measured: FingerprintSummary,
        fingerprints: Seq<GpuFingerprint>,
        opening: Seq<DriverNetEvent>,
        told: Seq<DriverNetEvent>,
        log: Seq<BackendEvent>,
        from: int,
    ) -> bool {
        exists|steps: Seq<GpuStep>| #[trigger]
            self.concludes(
                result,
                measured,
                fingerprints,
                steps,
                opening,
                told,
                log,
                from,
            ) && after == dispatcher_before(self.dispatcher, steps, steps.len() as int)
    }

    /// Whether a run ends at the first fingerprint without a root, with only
    /// that fingerprint told of its display.
    pub open spec fn stops(
        &self,
        measured: FingerprintSummary,
        fingerprints: Seq<GpuFingerprint>,
        steps: Seq<GpuStep>,
        opening: Seq<DriverNetEvent>,
        told: Seq<DriverNetEvent>,
        log: Seq<BackendEvent>,
        from: int,
    ) -> bool {
        let stop = steps.len() as int;
        &&& stop < measured.length
        &&& fingerprints[stop].evidence_root == 0
        &&& forall|k: int|
            0 <= k < steps.len() ==> (#[trigger] fingerprints[k]).evidence_root != 0
        &&& self.steps_follow(fingerprints, steps, log, from)
        &&& place_before(from, steps, stop) + 1 == log.len()
        &&& dispatch::tick_at(log, log.len() - 1) matches Some(tick) && told == opening
            + told_through(steps, stop).push(
            telemetry::fingerprint_event_of(self.secrets.telemetry, tick, fingerprints[stop]),
        )
    }

    pub open spec fn stopped(
        &self,
        after: DriverDispatcher,
        measured: FingerprintSummary,
        fingerprints: Seq<GpuFingerprint>,
        opening: Seq<DriverNetEvent>,
        told: Seq<DriverNetEvent>,
        log: Seq<BackendEvent>,
        from: int,
    ) -> bool {
        exists|steps: Seq<GpuStep>| #[trigger]
            self.stops(measured, fingerprints, steps, opening, told, log, from) && after
                == dispatcher_before(self.dispatcher, steps, steps.len() as int)
    }

    /// What a run over an inventory comes to: a measurement that fails ends it
    /// before any display, a fingerprint without a root ends it at that
    /// display, and otherwise every display has its step.
    pub open spec fn resolves_all(
        &self,
        result: Result<DriverNetSummary, DriverNetError>,
        after: DriverDispatcher,
        listed: int,
        measured: Result<FingerprintSummary, FingerprintError>,
        fingerprints: Seq<GpuFingerprint>,
        told: Seq<DriverNetEvent>,
        log: Seq<BackendEvent>,
        start: int,
    ) -> bool {
        match measured {
            Err(error) => {
                &&& result == Err::<DriverNetSummary, _>(DriverNetError::Fingerprint(error))
                &&& after == self.dispatcher
                &&& told == Seq::<DriverNetEvent>::empty()
                &&& log.len() == start
            },
            Ok(summary) => opening_run(
                self.secrets.telemetry,
                listed,
                summary,
                log,
                start,
            ) matches Some((opening, from)) && if exists|k: int|
                0 <= k < summary.length && (#[trigger] fingerprints[k]).evidence_root == 0 {
                &&& result == Err::<DriverNetSummary, _>(
                    DriverNetError::Oracle(OracleError::InvalidFingerprint),
                )
                &&& self.stopped(after, summary, fingerprints, opening, told, log, from)
            } else {
                self.concluded(result, after, summary, fingerprints, opening, told, log, from)
            },
        }
    }

    proof fn lemma_resolves_all(
        &self,
        result: Result<DriverNetSummary, DriverNetError>,
        after: DriverDispatcher,
        listed: int,
        measured: FingerprintSummary,
        fingerprints: Seq<GpuFingerprint>,
        steps: Seq<GpuStep>,
        opening: Seq<DriverNetEvent>,
        told: Seq<DriverNetEvent>,
        log: Seq<BackendEvent>,
        start: int,
        from: int,
    )
        requires
            forall|k: int|
                0 <= k < measured.length ==> (#[trigger] fingerprints[k]).evidence_root != 0,
            opening_run(self.secrets.telemetry, listed, measured, log, start) == Some(
                (opening, from),
            ),
            self.concludes(
                result,
                measured,
                fingerprints,
                steps,
                opening,
                told,
                log,
                from,
            ),
            after == dispatcher_before(self.dispatcher, steps, steps.len() as int),
        ensures
            self.resolves_all(
                result,
                after,
                listed,
                Ok(measured),
                fingerprints,
                told,
                log,
                start,
            ),
    {
        assert(self.concluded(
            result,
            after,
            measured,
            fingerprints,
            opening,
            told,
            log,
            from,
        ));
    }

    /// Steps through the displays in order, up to the first fingerprint that
    /// has no root.
    fn resolve_each<B: DriverNetBackend, O: DriverNetObserver>(
        &mut self,
        fingerprints: &Vec<GpuFingerprint>,
        length: usize,
        summary: &mut DriverNetSummary,
        backend: &mut BackendTrace<B>,
        observer: &mut ObserverTrace<O>,
    ) -> (outcome: (Result<(), OracleError>, Ghost<Seq<GpuStep>>))
        requires
            old(self).wf(),
            length <= fingerprints@.len() == MAXIMUM_GPUS,
            old(summary).resolutions@.len() == 0,
            counts_resolutions(*old(summary)),
        ensures
            final(self).wf(),
            final(self).secrets == old(self).secrets,
            final(self).oracle == old(self).oracle,
            final(self).registry == old(self).registry,
            crate::trace::continues(final(backend).log(), old(backend).log()),
            crate::trace::continues(final(observer).told(), old(observer).told()),
            match outcome.0 {
                Err(error) => {
                    let steps = outcome.1@;
                    &&& error == OracleError::InvalidFingerprint
                    &&& steps.len() < length
                    &&& fingerprints@[steps.len() as int].evidence_root == 0
                    &&& forall|k: int|
                        0 <= k < steps.len() ==> (#[trigger] fingerprints@[k]).evidence_root != 0
                    &&& final(self).dispatcher == dispatcher_before(
                        old(self).dispatcher,
                        steps,
                        steps.len() as int,
                    )
                    &&& old(self).steps_follow(
                        fingerprints@,
                        steps,
                        final(backend).log(),
                        old(backend).log().len() as int,
                    )
                    &&& place_before(
                        old(backend).log().len() as int,
                        steps,
                        steps.len() as int,
                    ) + 1 == final(backend).log().len()
                    &&& dispatch::tick_at(
                        final(backend).log(),
                        final(backend).log().len() - 1,
                    ) matches Some(tick) && final(observer).told() == old(observer).told()
                        + told_through(steps, steps.len() as int).push(
                        telemetry::fingerprint_event_of(
                            old(self).secrets.telemetry,
                            tick,
                            fingerprints@[steps.len() as int],
                        ),
                    )
                },
                Ok(()) => {
                    let steps = outcome.1@;
                    &&& forall|k: int|
                        0 <= k < length ==> (#[trigger] fingerprints@[k]).evidence_root != 0
                    &&& steps.len() == length
                    &&& final(self).dispatcher == dispatcher_before(
                        old(self).dispatcher,
                        steps,
                        length as int,
                    )
                    &&& place_before(old(backend).log().len() as int, steps, length as int)
                        == final(backend).log().len()
                    &&& final(observer).told() == old(observer).told() + told_through(
                        steps,
                        length as int,
                    )
                    &&& final(summary).resolutions@ == steps.map_values(
                        |step: GpuStep| step.compact,
                    )
                    &&& counts_resolutions(*final(summary))
                    &&& final(summary).fingerprint_summary == old(summary).fingerprint_summary
                    &&& forall|log: Seq<BackendEvent>| #[trigger]
                        crate::trace::continues(log, final(backend).log()) ==> old(
                            self,
                        ).steps_follow(
                            fingerprints@,
                            steps,
                            log,
                            old(backend).log().len() as int,
                        )
                },
            },
    {
        let ghost initial = *self;
        let ghost from = backend.log();
        let ghost told0 = observer.told();
        let ghost mut steps = Seq::<GpuStep>::empty();
        let mut index: usize = 0;
        while index < length
            invariant
                index <= length <= MAXIMUM_GPUS,
                fingerprints@.len() == MAXIMUM_GPUS,
                initial == *old(self),
                from == old(backend).log(),
                told0 == old(observer).told(),
                self.wf(),
                self.secrets == initial.secrets,
                self.oracle == initial.oracle,
                self.registry == initial.registry,
                self.dispatcher == dispatcher_before(initial.dispatcher, steps, index as int),
                steps.len() == index,
                summary.resolutions@.len() == index,
                summary.resolutions@ =~= steps.map_values(|step: GpuStep| step.compact),
                counts_resolutions(*summary),
                summary.fingerprint_summary == old(summary).fingerprint_summary,
                forall|k: int|
                    0 <= k < index ==> (#[trigger] fingerprints@[k]).evidence_root != 0,
                crate::trace::continues(backend.log(), from),
                place_before(from.len() as int, steps, index as int) == backend.log().len(),
                observer.told() =~= told0 + told_through(steps, index as int),
                forall|log: Seq<BackendEvent>| #[trigger]
                    crate::trace::continues(log, backend.log()) ==> initial.steps_follow(
                        fingerprints@,
                        steps,
                        log,
                        from.len() as int,
                    ),
            decreases length - index,
        {
            let fingerprint = fingerprints[index];
            let ghost head = backend.log();
            let ghost known = steps;
            let ghost current = *self;
            let resolved = self.resolve_one(&fingerprint, backend, observer);
            match resolved.0 {
                Ok(compact) => {
                    update_counts(summary, compact);
                    proof {
                        let step = resolved.1@;
                        steps = known.push(step);
                        lemma_told_through_extends(known, step, index as int);
                        assert(steps[index as int] == step);
                        assert forall|log: Seq<BackendEvent>| #[trigger]
                            crate::trace::continues(
                                log,
                                backend.log(),
                            ) implies initial.steps_follow(
                            fingerprints@,
                            steps,
                            log,
                            from.len() as int,
                        ) by {
                            assert(crate::trace::continues(log, head));
                            lemma_steps_need_no_dispatcher(
                                initial,
                                current,
                                current.dispatcher,
                                fingerprint,
                                step,
                                log,
                                head.len() as int,
                            );
                            lemma_steps_extend(
                                initial,
                                fingerprints@,
                                known,
                                step,
                                log,
                                from.len() as int,
                            );
                        }
                        assert(told_through(steps, index + 1) == told_through(
                            steps,
                            index as int,
                        ) + step.told);
                    }
                },
                Err(error) => {
                    assert(fingerprints@[index as int].evidence_root == 0);
                    assert(crate::trace::continues(backend.log(), head));
                    return (Err(error), Ghost(steps));
                },
            }
            index += 1;
        }
        (Ok(()), Ghost(steps))
    }

    /// Names the primary display, or tells that there is none, and seals the
    /// summary.
    fn close_run<B: DriverNetBackend, O: DriverNetObserver>(
        &self,
        summary: &mut DriverNetSummary,
        first: &GpuFingerprint,
        backend: &mut BackendTrace<B>,
        observer: &mut ObserverTrace<O>,
    ) -> (closing: Ghost<u64>)
        requires
            old(summary).resolutions@.len() <= MAXIMUM_GPUS,
            counts_resolutions(*old(summary)),
        ensures
            final(backend).log() == old(backend).log().push(BackendEvent::Tick(closing@)),
            final(summary).resolutions@ == old(summary).resolutions@,
            final(summary).fingerprint_summary == old(summary).fingerprint_summary,
            counts_resolutions(*final(summary)),
            is_primary(final(summary).resolutions@, final(summary).primary_index),
            final(summary).display_available == (final(summary).primary_index is Some),
            final(summary).verified(self.secrets.dispatch),
            final(observer).told() == old(observer).told().push(
                closing_event_of(
                    self.secrets.telemetry,
                    closing@,
                    final(summary).resolutions@,
                    final(summary).primary_index,
                    *first,
                ),
            ),
    {
        summary.primary_index = select_primary(summary.resolutions());
        let closing: u64 = backend.now_tick();
        match summary.primary_index {
            Some(place) => {
                let primary = summary.resolutions[place];
                summary.display_available = primary.display_available();
                let mut event = DriverNetEvent {
                    tick: closing,
                    kind: DriverNetEventKind::PrimarySelected,
                    severity: if primary.display_available() {
                        0
                    } else {
                        1
                    },
                    strategy: primary.strategy,
                    address: telemetry::packed_address(&primary.fingerprint),
                    fingerprint_root: primary.fingerprint.evidence_root,
                    decision_root: primary.decision_root,
                    data0: primary.framebuffer_object,
                    data1: primary.resolution_root,
                    root: 0,
                };
                event.seal(self.secrets.telemetry);
                observer.observe(event);
            },
            None => {
                summary.display_available = false;
                observer.observe(
                    terminal_event(
                        self.secrets.telemetry,
                        closing,
                        DriverNetEventKind::NoDisplay,
                        DriverStrategy::Quarantine,
                        first,
                        0,
                        FaultCode::NoSafeStrategy,
                        0,
                    ),
                );
            },
        }
        let ghost unsealed = *summary;
        let root: u64 = summary_root(self.secrets.dispatch, summary);
        summary.summary_root = root;
        proof {
            lemma_summary_words_ignore_root(
                unsealed,
                *summary,
                summary.resolutions@.len() as int,
            );
        }
        Ghost(closing)
    }

    /// Measures every display function, decides about each and activates what
    /// the decisions allow.
    pub fn resolve_all<
        const N: usize,
        C: PciConfigReader,
        T: TopologyEvidenceProvider,
        B: DriverNetBackend,
        O: DriverNetObserver,
    >(
        &mut self,
        inventory: &DisplayFunctionInventory<N>,
        config: &mut ConfigurationTrace<C>,
        topology: &T,
        backend: &mut BackendTrace<B>,
        observer: &mut ObserverTrace<O>,
        scratch: &mut DriverNetScratch,
    ) -> (result: Result<DriverNetSummary, DriverNetError>)
        requires
            old(self).wf(),
            old(scratch).fingerprints@.len() == MAXIMUM_GPUS,
        ensures
            final(self).wf(),
            final(self).secrets == old(self).secrets,
            final(self).oracle == old(self).oracle,
            final(self).registry == old(self).registry,
            final(scratch).fingerprints@.len() == MAXIMUM_GPUS,
            crate::trace::continues(final(config).log(), old(config).log()),
            crate::trace::continues(final(backend).log(), old(backend).log()),
            crate::trace::continues(final(observer).told(), old(observer).told()),
            exists|measured: Result<FingerprintSummary, FingerprintError>| #[trigger]
                fingerprint::inventory_outcome(
                    inventory.model(),
                    topology,
                    old(self).secrets.fingerprint,
                    old(scratch).fingerprints@,
                    final(scratch).fingerprints@,
                    old(config).log(),
                    final(config).log(),
                    measured,
                ) && old(self).resolves_all(
                    result,
                    final(self).dispatcher,
                    inventory@.len() as int,
                    measured,
                    final(scratch).fingerprints@,
                    final(observer).told().skip(old(observer).told().len() as int),
                    final(backend).log(),
                    old(backend).log().len() as int,
                ),
    {
        let ghost told0 = observer.told();
        let ghost log0 = backend.log();
        let outcome = fingerprint_inventory(
            inventory,
            config,
            topology,
            self.secrets.fingerprint,
            scratch.fingerprints.as_mut_slice(),
        );
        assert(told0.skip(told0.len() as int) =~= Seq::<DriverNetEvent>::empty());
        assert(fingerprint::inventory_outcome(
            inventory.model(),
            topology,
            old(self).secrets.fingerprint,
            old(scratch).fingerprints@,
            scratch.fingerprints@,
            old(config).log(),
            config.log(),
            outcome,
        ));
        let measured = match outcome {
            Ok(measured) => measured,
            Err(error) => {
                return Err(DriverNetError::Fingerprint(error));
            },
        };
        let ghost fingerprints = scratch.fingerprints@;
        let ghost initial = *self;
        let opened = self.open_run(inventory.len(), measured, backend, observer);
        let ghost opening = opened@;
        let ghost from = backend.log();
        let mut summary = DriverNetSummary {
            resolutions: Vec::new(),
            primary_index: None,
            fingerprint_summary: measured,
            native_count: 0,
            firmware_count: 0,
            quarantined_count: 0,
            failed_count: 0,
            display_available: false,
            summary_root: 0,
        };
        let walked = self.resolve_each(
            &scratch.fingerprints,
            measured.length,
            &mut summary,
            backend,
            observer,
        );
        let ghost steps = walked.1@;
        let ghost middle = backend.log();
        match walked.0 {
            Ok(()) => {},
            Err(error) => {
                proof {
                    let told = observer.told().skip(told0.len() as int);
                    assert(crate::trace::continues(backend.log(), from));
                    assert(told =~= opening + told_through(steps, steps.len() as int).push(
                        observer.told().last(),
                    ));
                    assert(initial.stops(
                        measured,
                        fingerprints,
                        steps,
                        opening,
                        told,
                        backend.log(),
                        from.len() as int,
                    ));
                    assert(opening_run(
                        initial.secrets.telemetry,
                        inventory@.len() as int,
                        measured,
                        backend.log(),
                        log0.len() as int,
                    ) == Some((opening, from.len() as int)));
                    assert(initial.stopped(
                        self.dispatcher,
                        measured,
                        fingerprints,
                        opening,
                        told,
                        backend.log(),
                        from.len() as int,
                    ));
                }
                return Err(DriverNetError::Oracle(error));
            },
        }
        let closing = self.close_run(&mut summary, &scratch.fingerprints[0], backend, observer);
        proof {
            let told = observer.told().skip(told0.len() as int);
            assert(crate::trace::continues(backend.log(), middle));
            assert(crate::trace::continues(backend.log(), from));
            assert(told =~= opening + told_through(steps, steps.len() as int).push(
                observer.told().last(),
            ));
            assert(initial.concludes(
                Ok(summary),
                measured,
                fingerprints,
                steps,
                opening,
                told,
                backend.log(),
                from.len() as int,
            ));
            assert(opening_run(
                initial.secrets.telemetry,
                inventory@.len() as int,
                measured,
                backend.log(),
                log0.len() as int,
            ) == Some((opening, from.len() as int)));
            assert(self.dispatcher == dispatcher_before(
                initial.dispatcher,
                steps,
                steps.len() as int,
            ));
            initial.lemma_resolves_all(
                Ok(summary),
                self.dispatcher,
                inventory@.len() as int,
                measured,
                fingerprints,
                steps,
                opening,
                told,
                backend.log(),
                log0.len() as int,
                from.len() as int,
            );
        }
        Ok(summary)
    }
}

/// The event that closes a run.
pub open spec fn closing_event_of(
    secret: u64,
    tick: u64,
    resolutions: Seq<GpuResolution>,
    primary: Option<usize>,
    first: GpuFingerprint,
) -> DriverNetEvent {
    match primary {
        Some(index) => primary_event_of(secret, tick, resolutions[index as int]),
        None => telemetry::terminal_event_of(
            secret,
            tick,
            DriverNetEventKind::NoDisplay,
            DriverStrategy::Quarantine,
            first,
            0,
            FaultCode::NoSafeStrategy,
            0,
        ),
    }
}

proof fn lemma_steps_need_no_dispatcher(
    net: DriverNet,
    other: DriverNet,
    before: DriverDispatcher,
    fingerprint: GpuFingerprint,
    step: GpuStep,
    log: Seq<BackendEvent>,
    from: int,
)
    requires
        net.secrets == other.secrets,
        net.oracle == other.oracle,
        net.registry == other.registry,
    ensures
        net.steps_through(before, fingerprint, step, log, from) == other.steps_through(
            before,
            fingerprint,
            step,
            log,
            from,
        ),
{
    reveal(DriverNet::steps_through);
}

proof fn lemma_steps_extend(
    net: DriverNet,
    fingerprints: Seq<GpuFingerprint>,
    steps: Seq<GpuStep>,
    step: GpuStep,
    log: Seq<BackendEvent>,
    from: int,
)
    requires
        net.steps_follow(fingerprints, steps, log, from),
        net.steps_through(
            dispatcher_before(net.dispatcher, steps, steps.len() as int),
            fingerprints[steps.len() as int],
            step,
            log,
            place_before(from, steps, steps.len() as int),
        ),
    ensures
        net.steps_follow(fingerprints, steps.push(step), log, from),
{
    let grown = steps.push(step);
    assert forall|k: int|
        #![trigger grown[k]]
        0 <= k < grown.len() implies net.steps_through(
        dispatcher_before(net.dispatcher, grown, k),
        fingerprints[k],
        grown[k],
        log,
        place_before(from, grown, k),
    ) by {
        if k < steps.len() {
            assert(grown[k] == steps[k]);
        }
        if k > 0 {
            assert(grown[k - 1] == steps[k - 1]);
        }
    }
}

proof fn lemma_told_through_extends(steps: Seq<GpuStep>, step: GpuStep, upto: int)
    requires
        0 <= upto <= steps.len(),
    ensures
        told_through(steps.push(step), upto) == told_through(steps, upto),
    decreases upto,
{
    if upto > 0 {
        lemma_told_through_extends(steps, step, upto - 1);
        assert(steps.push(step)[upto - 1] == steps[upto - 1]);
    }
}

proof fn lemma_summary_words_ignore_root(
    unsealed: DriverNetSummary,
    sealed: DriverNetSummary,
    upto: int,
)
    requires
        sealed == (DriverNetSummary { summary_root: sealed.summary_root, ..unsealed }),
    ensures
        summary_words(sealed, upto) == summary_words(unsealed, upto),
    decreases upto,
{
    if upto > 0 {
        lemma_summary_words_ignore_root(unsealed, sealed, upto - 1);
    }
}

} // verus!
