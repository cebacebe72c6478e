//! Laws of how a device is brought up, stage by stage.

use vstd::prelude::*;

use crate::hermes_abi::HermesNormalizedEvent;
use crate::hermes_abi::HermesPciIdentity;
use crate::hermes_abi::HermesProbeEvidence;
use crate::hermes_abi::HermesTransportProfile;
use crate::hermes_gsp::HermesFault;
use crate::hermes_gsp::HermesPlatform;
use crate::hermes_gsp::RuntimeView;
use crate::hermes_trace::HermesEvent;
use crate::hermes_transport::HermesLease;

verus! {

/// Each step is asked for by stage and number, after the clock was read and before
/// the deadline; the personality ends the stage, or the steps run out.
pub proof fn law_steps_are_asked_for_by_number<B: HermesPlatform>(
    identity: HermesPciIdentity,
    evidence: HermesProbeEvidence,
    profile: HermesTransportProfile,
    lease: HermesLease<B>,
    stage: u32,
    deadline_tick: u64,
    index: nat,
    maximum: nat,
    log: Seq<HermesEvent<B>>,
    at: int,
    result: Result<(), HermesFault>,
    end: int,
)
    requires
        crate::hermes_transport::steps_run(
            identity,
            evidence,
            profile,
            lease,
            stage,
            deadline_tick,
            index,
            maximum,
            log,
            at,
        ) == Some((result, end)),
    ensures
        index >= maximum ==> result == Err::<(), _>(HermesFault::BootFuelExhausted) && end == at,
        index < maximum ==> log[at] is Now,
        index < maximum && crate::hermes_gsp::tick_reached(log[at]->Now_tick, deadline_tick)
            ==> result == Err::<(), _>(HermesFault::DeadlineExpired) && end == at + 1,
        index < maximum && !crate::hermes_gsp::tick_reached(log[at]->Now_tick, deadline_tick)
            ==> log[at + 1] is Boot && log[at + 1]->Boot_stage == stage && log[at + 1]->Boot_index
            == index && log[at + 1]->Boot_identity == identity && log[at + 1]->Boot_evidence
            == evidence && (log[at + 1]->Boot_reply matches Err(fault) ==> result == Err::<(), _>(
            fault,
        ) && end == at + 2) && (log[at + 1]->Boot_reply matches Ok(None) ==> result is Ok && end
            == at + 2),
{
}

/// The instructions of a stage are taken one after the other: behind one that
/// succeeds comes the one with the next number.
pub proof fn law_an_instruction_is_followed_by_the_next<B: HermesPlatform>(
    identity: HermesPciIdentity,
    evidence: HermesProbeEvidence,
    profile: HermesTransportProfile,
    lease: HermesLease<B>,
    stage: u32,
    deadline_tick: u64,
    index: nat,
    maximum: nat,
    log: Seq<HermesEvent<B>>,
    at: int,
    next: int,
)
    requires
        index + 1 < maximum,
        0 <= at,
        at + 1 < log.len(),
        log[at] is Now,
        !crate::hermes_gsp::tick_reached(log[at]->Now_tick, deadline_tick),
        log[at + 1] is Boot,
        log[at + 1]->Boot_identity == identity,
        log[at + 1]->Boot_evidence == evidence,
        log[at + 1]->Boot_stage == stage,
        log[at + 1]->Boot_index == index,
        log[at + 1]->Boot_reply matches Ok(Some(instruction)) && instruction.opcode != 0 && (
        crate::hermes_gsp::validate_boot_instruction(stage, &instruction) is Ok) && (
        crate::hermes_transport::instruction_run(
            profile,
            lease,
            instruction,
            deadline_tick,
            log,
            at + 2,
        ) == Some((Ok::<(), HermesFault>(()), next))),
        crate::hermes_transport::steps_run(
            identity,
            evidence,
            profile,
            lease,
            stage,
            deadline_tick,
            index,
            maximum,
            log,
            at,
        ) is Some,
    ensures
        0 <= next < log.len(),
        log[next] is Now,
        !crate::hermes_gsp::tick_reached(log[next]->Now_tick, deadline_tick) ==> log[next
            + 1] is Boot && log[next + 1]->Boot_stage == stage && log[next + 1]->Boot_index == index
            + 1,
{
    reveal_with_fuel(crate::hermes_transport::steps_run, 2);
}

/// A stage has as many steps as its profile allows, and never more than 256.
pub proof fn law_a_stage_has_bounded_steps<B: HermesPlatform>(
    identity: HermesPciIdentity,
    evidence: HermesProbeEvidence,
    profile: HermesTransportProfile,
    lease: HermesLease<B>,
    stage: u32,
    deadline_tick: u64,
    log: Seq<HermesEvent<B>>,
    at: int,
)
    ensures
        exists|maximum: nat|
            {
                &&& maximum <= profile.maximum_boot_steps
                &&& maximum <= 256
                &&& maximum == profile.maximum_boot_steps || maximum == 256
                &&& crate::hermes_transport::stage_run(
                    identity,
                    evidence,
                    profile,
                    lease,
                    stage,
                    deadline_tick,
                    log,
                    at,
                ) == #[trigger] crate::hermes_transport::steps_run(
                    identity,
                    evidence,
                    profile,
                    lease,
                    stage,
                    deadline_tick,
                    0,
                    maximum,
                    log,
                    at,
                )
            },
{
    let maximum: nat = if profile.maximum_boot_steps <= 256 {
        profile.maximum_boot_steps as nat
    } else {
        256
    };
    assert(crate::hermes_transport::stage_run(
        identity,
        evidence,
        profile,
        lease,
        stage,
        deadline_tick,
        log,
        at,
    ) == crate::hermes_transport::steps_run(
        identity,
        evidence,
        profile,
        lease,
        stage,
        deadline_tick,
        0,
        maximum,
        log,
        at,
    ));
}

/// A device boots by firmware, queues and ignition, then reports ready in its
/// status register, and only then negotiates.
pub proof fn law_stages_follow_each_other<B: HermesPlatform>(
    identity: HermesPciIdentity,
    evidence: HermesProbeEvidence,
    profile: HermesTransportProfile,
    lease: HermesLease<B>,
    deadline_tick: u64,
    log: Seq<HermesEvent<B>>,
    at: int,
    end: int,
)
    requires
        crate::hermes_transport::boot_run(
            identity,
            evidence,
            profile,
            lease,
            deadline_tick,
            log,
            at,
        ) == Some((Ok::<(), HermesFault>(()), end)),
    ensures
        exists|loaded: int, queued: int, lit: int, ready: int|
            {
                &&& #[trigger] succeeds(
                    identity,
                    evidence,
                    profile,
                    lease,
                    1,
                    deadline_tick,
                    log,
                    at,
                    loaded,
                )
                &&& #[trigger] succeeds(
                    identity,
                    evidence,
                    profile,
                    lease,
                    2,
                    deadline_tick,
                    log,
                    loaded,
                    queued,
                )
                &&& #[trigger] succeeds(
                    identity,
                    evidence,
                    profile,
                    lease,
                    3,
                    deadline_tick,
                    log,
                    queued,
                    lit,
                )
                &&& crate::hermes_transport::poll_run(
                    profile.fault_mask,
                    lease,
                    profile.control_bar,
                    profile.status_offset,
                    profile.ready_mask,
                    profile.ready_value,
                    deadline_tick,
                    0,
                    log,
                    lit,
                ) matches Some((polled, then)) && polled is Ok && then == ready
                &&& #[trigger] succeeds(
                    identity,
                    evidence,
                    profile,
                    lease,
                    4,
                    deadline_tick,
                    log,
                    ready,
                    end,
                )
            },
{
    let (_, loaded) = crate::hermes_transport::stage_run(
        identity,
        evidence,
        profile,
        lease,
        1,
        deadline_tick,
        log,
        at,
    )->0;
    let (_, queued) = crate::hermes_transport::stage_run(
        identity,
        evidence,
        profile,
        lease,
        2,
        deadline_tick,
        log,
        loaded,
    )->0;
    let (_, lit) = crate::hermes_transport::stage_run(
        identity,
        evidence,
        profile,
        lease,
        3,
        deadline_tick,
        log,
        queued,
    )->0;
    let (_, ready) = crate::hermes_transport::poll_run(
        profile.fault_mask,
        lease,
        profile.control_bar,
        profile.status_offset,
        profile.ready_mask,
        profile.ready_value,
        deadline_tick,
        0,
        log,
        lit,
    )->0;
    assert(succeeds(identity, evidence, profile, lease, 1, deadline_tick, log, at, loaded));
    assert(succeeds(identity, evidence, profile, lease, 2, deadline_tick, log, loaded, queued));
    assert(succeeds(identity, evidence, profile, lease, 3, deadline_tick, log, queued, lit));
    assert(succeeds(identity, evidence, profile, lease, 4, deadline_tick, log, ready, end));
}

/// Whether a stage that begins at one place of the log succeeds and ends at
/// another.
pub open spec fn succeeds<B: HermesPlatform>(
    identity: HermesPciIdentity,
    evidence: HermesProbeEvidence,
    profile: HermesTransportProfile,
    lease: HermesLease<B>,
    stage: u32,
    deadline_tick: u64,
    log: Seq<HermesEvent<B>>,
    from: int,
    to: int,
) -> bool {
    crate::hermes_transport::stage_run(
        identity,
        evidence,
        profile,
        lease,
        stage,
        deadline_tick,
        log,
        from,
    ) matches Some((result, end)) && result is Ok && end == to
}

/// Waiting reads the clock before it looks for an event, and ends at the deadline
/// or when no tries are left.
pub proof fn law_waiting_ends_at_the_deadline<B: HermesPlatform>(
    profile: HermesTransportProfile,
    lease: HermesLease<B>,
    runtime: RuntimeView,
    deadline_tick: u64,
    spins: nat,
    log: Seq<HermesEvent<B>>,
    at: int,
    result: Result<HermesNormalizedEvent, HermesFault>,
    after: RuntimeView,
    end: int,
)
    requires
        crate::hermes_transport::await_run(
            profile,
            lease,
            runtime,
            deadline_tick,
            spins,
            log,
            at,
        ) == Some((result, after, end)),
    ensures
        spins == 0 ==> result == Err::<HermesNormalizedEvent, _>(HermesFault::BootFuelExhausted)
            && after == runtime && end == at,
        spins > 0 ==> log[at] is Now,
        spins > 0 && crate::hermes_gsp::tick_reached(log[at]->Now_tick, deadline_tick) ==> result
            == Err::<HermesNormalizedEvent, _>(HermesFault::DeadlineExpired) && after == runtime
            && end == at + 1,
        spins > 0 && !crate::hermes_gsp::tick_reached(log[at]->Now_tick, deadline_tick) ==> (
        crate::hermes_transport::receive_run(profile, lease, runtime, log, at + 1) matches Some(
            (received, then, next),
        ) && (received matches Ok(Some(event)) ==> result == Ok::<_, HermesFault>(event) && after
            == then && end == next) && (received matches Err(fault) ==> result == Err::<
            HermesNormalizedEvent,
            _,
        >(fault) && after == then && end == next)),
{
}

/// Negotiation offers every feature that is required or optional and settles on
/// those that the answer names.
pub proof fn law_negotiation_settles_on_the_answer<B: HermesPlatform>(
    profile: HermesTransportProfile,
    lease: HermesLease<B>,
    runtime: RuntimeView,
    deadline_tick: u64,
    log: Seq<HermesEvent<B>>,
    at: int,
    result: Result<(), HermesFault>,
    after: RuntimeView,
    end: int,
)
    requires
        crate::hermes_transport::negotiate_run(profile, lease, runtime, deadline_tick, log, at)
            == Some((result, after, end)),
    ensures
        runtime.exhausted() ==> result == Err::<(), _>(HermesFault::CorrelationSpaceExhausted)
            && after == runtime && end == at,
        result is Ok ==> exists|event: HermesNormalizedEvent|
            {
                &&& #[trigger] crate::hermes_transport::negotiation_fault(
                    &profile,
                    (runtime.epoch, runtime.next_sequence),
                    &event,
                ) is None
                &&& after.negotiated_features == event.arguments[0]
            },
{
    if result is Ok {
        let command = crate::hermes_abi::shape_with(
            (runtime.epoch, runtime.next_sequence),
            1,
            0,
            0,
            seq![
                profile.required_features | profile.optional_features,
                crate::hermes_transport::offered_wire(&profile),
                0u64,
                0u64,
                0u64,
                0u64,
                0u64,
                0u64,
            ],
            Seq::empty(),
            deadline_tick,
        );
        let (_, sent, next) = crate::hermes_transport::send_run(
            profile,
            lease,
            runtime.advanced(),
            command,
            log,
            at,
        )->0;
        let (received, _, _) = crate::hermes_transport::await_run(
            profile,
            lease,
            sent,
            deadline_tick,
            crate::hermes_gsp::MAXIMUM_WAIT_SPINS as nat,
            log,
            next,
        )->0;
        let event = received->Ok_0;
        assert(crate::hermes_transport::negotiation_fault(
            &profile,
            (runtime.epoch, runtime.next_sequence),
            &event,
        ) is None);
    }
}

/// A device that does not boot is not spoken to.
pub proof fn law_a_device_boots_before_it_negotiates<B: HermesPlatform>(
    identity: HermesPciIdentity,
    evidence: HermesProbeEvidence,
    profile: HermesTransportProfile,
    lease: HermesLease<B>,
    runtime: RuntimeView,
    deadline_tick: u64,
    log: Seq<HermesEvent<B>>,
    at: int,
    result: Result<(), HermesFault>,
    after: RuntimeView,
    end: int,
)
    requires
        crate::hermes_transport::ignite_run(
            identity,
            evidence,
            profile,
            lease,
            runtime,
            deadline_tick,
            log,
            at,
        ) == Some((result, after, end)),
    ensures
        crate::hermes_transport::boot_run(
            identity,
            evidence,
            profile,
            lease,
            deadline_tick,
            log,
            at,
        ) matches Some((booted, next)) && (booted is Err ==> result == booted && after == runtime
            && end == next) && (result is Ok ==> booted is Ok),
{
}

/// A personality is bound only if its profile is sound and its backlog fits the
/// requests that can wait.
pub proof fn law_a_backlog_fits_the_table<const PENDING: usize>(
    personality_id: u64,
    profile: &HermesTransportProfile,
    evidence: &HermesProbeEvidence,
)
    ensures
        crate::hermes_transport::binding_fault::<PENDING>(personality_id, profile, evidence) is None
            <==> crate::hermes_gsp::profile_fault(personality_id, profile, evidence) is None
            && PENDING > 0 && profile.maximum_admission_backlog <= PENDING,
        crate::hermes_gsp::profile_fault(personality_id, profile, evidence) is None && (PENDING == 0
            || profile.maximum_admission_backlog > PENDING)
            ==> crate::hermes_transport::binding_fault::<PENDING>(personality_id, profile, evidence)
            == Some(HermesFault::ServiceCurveRejected),
{
}

} // verus!
