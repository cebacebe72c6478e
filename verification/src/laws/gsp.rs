//! Laws of what a transport accepts and keeps count of.

use vstd::prelude::*;

use crate::drivernet::fingerprint::GpuFingerprint;
use crate::gpu_abi::GpuCompatibilityProof;
use crate::gpu_abi::GpuDeviceEvidence;
use crate::hermes_abi::HermesAdmissionFault;
use crate::hermes_abi::HermesBootInstruction;
use crate::hermes_abi::HermesPciIdentity;
use crate::hermes_abi::HermesProbeEvidence;
use crate::hermes_abi::HermesTransportProfile;
use crate::hermes_gsp::DmaRegion;
use crate::hermes_gsp::FirmwareImage;
use crate::hermes_gsp::HermesFault;
use crate::hermes_gsp::Judgement;
use crate::hermes_gsp::PendingRequest;

verus! {

/// A function is taken exactly when its vendor is 0x10de, its class is display,
/// and its slot and function are numbers that PCI has.
pub proof fn law_which_functions_are_taken(identity: HermesPciIdentity)
    ensures
        crate::hermes_gsp::validate_identity(&identity) is Ok <==> identity.vendor_id == 0x10de
            && identity.class_code == 3 && identity.slot < 32 && identity.function < 8,
        identity.vendor_id != 0x10de <==> crate::hermes_gsp::validate_identity(&identity) == Err::<
            (),
            _,
        >(HermesFault::NotNvidia),
{
}

/// An instruction word fits a narrower number exactly when it is no larger, and
/// keeps its value.
pub proof fn law_words_narrow_only_where_they_fit(word: u64, value: usize)
    ensures
        crate::hermes_gsp::word_u8(word) is Ok <==> word < 0x100,
        crate::hermes_gsp::word_u8(word) matches Ok(narrow) ==> narrow == word,
        crate::hermes_gsp::word_u16(word) is Ok <==> word < 0x1_0000,
        crate::hermes_gsp::word_u16(word) matches Ok(narrow) ==> narrow == word,
        crate::hermes_gsp::word_u32(word) is Ok <==> word < 0x1_0000_0000,
        crate::hermes_gsp::word_u32(word) matches Ok(narrow) ==> narrow == word,
        crate::hermes_gsp::usize_to_u32(value) is Ok <==> value < 0x1_0000_0000,
        crate::hermes_gsp::usize_to_u32(value) matches Ok(narrow) ==> narrow == value,
{
}

/// A power of two is one, or twice a power of two; no odd number above one is.
pub proof fn law_powers_of_two_double(n: nat)
    ensures
        crate::hermes_gsp::power_of_two(1),
        n > 0 ==> (crate::hermes_gsp::power_of_two(2 * n) <==> crate::hermes_gsp::power_of_two(n)),
        !crate::hermes_gsp::power_of_two(0),
        n > 0 ==> !crate::hermes_gsp::power_of_two((2 * n + 1) as nat),
{
    assert((2 * n) as nat / 2 == n);
}

/// A ring has a depth that is a power of two of at least two, and slots of four
/// to 4096 bytes in multiples of four; it is as long as all of them.
pub proof fn law_rings_have_whole_slots(depth: u16, slot_bytes: u16)
    ensures
        crate::hermes_gsp::ring_bytes_of(depth, slot_bytes) is Ok <==> depth > 1
            && crate::hermes_gsp::power_of_two(
                depth as nat,
            ) && 4 <= slot_bytes <= 4096 && slot_bytes
            % 4 == 0,
        crate::hermes_gsp::ring_bytes_of(depth, slot_bytes) matches Ok(bytes) ==> bytes == depth
            * slot_bytes,
{
    let (d, b) = (depth as int, slot_bytes as int);
    assert(0 <= d * b <= 0xffff * 0xffff) by (nonlinear_arith)
        requires
            0 <= d <= 0xffff,
            0 <= b <= 0xffff,
    ;
}

/// A ring may be announced only with the shape that the profile gives it, in a
/// region at least that long.
pub proof fn law_when_a_ring_may_be_announced(
    length: usize,
    depth: u16,
    slot: u16,
    declared_depth: u16,
    declared_slot: u16,
)
    ensures
        crate::hermes_gsp::publication_of(length, depth, slot, declared_depth, declared_slot) is Ok
            <==> declared_depth == depth && declared_slot == slot && (
        crate::hermes_gsp::ring_bytes_of(depth, slot) matches Ok(bytes) && bytes <= length),
{
    law_rings_have_whole_slots(depth, slot);
}

/// What an accepted profile promises.
pub proof fn law_an_accepted_profile_is_in_range(
    personality_id: u64,
    profile: HermesTransportProfile,
    evidence: HermesProbeEvidence,
)
    requires
        crate::hermes_gsp::profile_fault(personality_id, &profile, &evidence) is None,
    ensures
        profile.personality_id == personality_id,
        profile.struct_size >= 192,
        profile.control_bar < 6,
        profile.doorbell_bar < 6,
        1 <= profile.maximum_boot_steps <= 256,
        1 <= profile.maximum_wire_bytes <= 4096,
        profile.command_slot_bytes <= profile.maximum_wire_bytes,
        profile.event_slot_bytes <= profile.maximum_wire_bytes,
        profile.wire_minor_minimum <= profile.wire_minor_maximum,
        profile.maximum_admission_backlog < profile.command_depth,
        1 <= profile.minimum_completions_per_window <= profile.maximum_admission_backlog,
        1 <= profile.maximum_admissions_per_window <= profile.maximum_admission_backlog,
        profile.service_window_ticks > 0,
        profile.firmware_minimum_bytes <= profile.firmware_maximum_bytes,
        profile.firmware_maximum_bytes > 0 ==> profile.firmware_alignment > 0,
        forall|bar: int|
            0 <= bar < 6 ==> evidence.bar_lengths[bar]
                >= #[trigger] profile.required_bar_lengths[bar],
        profile.command_producer_offset + 4 <= profile.required_bar_lengths[profile.control_bar as int],
        profile.command_consumer_offset + 4 <= profile.required_bar_lengths[profile.control_bar as int],
        profile.event_producer_offset + 4 <= profile.required_bar_lengths[profile.control_bar as int],
        profile.event_consumer_offset + 4 <= profile.required_bar_lengths[profile.control_bar as int],
        profile.status_offset + 4 <= profile.required_bar_lengths[profile.control_bar as int],
        profile.command_doorbell_offset + 4
            <= profile.required_bar_lengths[profile.doorbell_bar as int],
        profile.event_doorbell_offset + 4
            <= profile.required_bar_lengths[profile.doorbell_bar as int],
{
}

/// An image is refused where none is wanted, where its size is out of the
/// profile's range, or where it names no version.
pub proof fn law_which_images_are_refused(profile: HermesTransportProfile, image: FirmwareImage)
    ensures
        profile.firmware_maximum_bytes == 0 <==> crate::hermes_gsp::firmware_fault(&profile, &image)
            == Some(HermesFault::FirmwareUnexpected),
        profile.firmware_maximum_bytes != 0 && (image.bytes@.len() < profile.firmware_minimum_bytes
            || image.bytes@.len() > profile.firmware_maximum_bytes) <==>
            crate::hermes_gsp::firmware_fault(&profile, &image) == Some(HermesFault::FirmwareSize),
        crate::hermes_gsp::firmware_fault(&profile, &image) is None ==> image.version != 0
            && crate::hermes_gsp::power_of_two(profile.firmware_alignment as nat) && exists|i: int|
            0 <= i < image.manifest_hash@.len() && #[trigger] image.manifest_hash@[i] != 0,
{
}

/// A region is good for a purpose when it is long enough, aligned at least as
/// asked, at an address that is a multiple of that, not zero, and does not wrap.
pub proof fn law_which_regions_are_good<Handle: Copy>(
    region: DmaRegion<Handle>,
    length: usize,
    alignment: usize,
)
    requires
        alignment > 0,
    ensures
        crate::hermes_gsp::validate_dma_region(region, length, alignment) is Ok <==> region.length
            >= length && region.alignment >= alignment && region.device_address > 0
            && region.device_address as int % alignment as int == 0 && region.device_address
            + length <= u64::MAX,
{
}

/// A boot instruction is taken when it has a version, at least eighty bytes and
/// the stage that was asked for.
pub proof fn law_which_instructions_are_taken(stage: u32, instruction: HermesBootInstruction)
    ensures
        crate::hermes_gsp::validate_boot_instruction(stage, &instruction) is Ok <==>
            instruction.instruction_version > 0 && instruction.struct_size >= 80
            && instruction.stage == stage,
{
}

/// A pending request is found by its epoch and sequence, at the first live slot
/// that has both.
pub proof fn law_a_request_is_found_by_its_correlation(
    entries: Seq<PendingRequest>,
    epoch: u32,
    sequence: u32,
    from: int,
)
    requires
        0 <= from <= entries.len(),
    ensures
        crate::hermes_gsp::slot_of(entries, epoch, sequence, from) matches Some(slot) ==> from
            <= slot < entries.len() && entries[slot].live && entries[slot].epoch == epoch
            && entries[slot].sequence == sequence,
        crate::hermes_gsp::slot_of(entries, epoch, sequence, from) is None <==> forall|i: int|
            from <= i < entries.len() ==>
                !((#[trigger] entries[i]).live && entries[i].epoch == epoch
                && entries[i].sequence == sequence),
        from == 0 ==> (crate::hermes_gsp::response_of(entries, epoch, sequence) matches Ok(request)
            ==> request.live && request.epoch == epoch && request.sequence == sequence),
    decreases entries.len() - from,
{
    if from < entries.len() && !entries[from].answers_to(epoch, sequence) {
        law_a_request_is_found_by_its_correlation(entries, epoch, sequence, from + 1);
    }
}

/// The first slot that is free takes a new request.
pub proof fn law_the_first_free_slot_is_taken(entries: Seq<PendingRequest>, from: int)
    requires
        0 <= from <= entries.len(),
    ensures
        crate::hermes_gsp::free_slot(entries, from) matches Some(slot) ==> from <= slot
            < entries.len() && !entries[slot].live && forall|i: int|
            from <= i < slot ==> (#[trigger] entries[i]).live,
        crate::hermes_gsp::free_slot(entries, from) is None <==> forall|i: int|
            from <= i < entries.len() ==> (#[trigger] entries[i]).live,
    decreases entries.len() - from,
{
    if from < entries.len() && entries[from].live {
        law_the_first_free_slot_is_taken(entries, from + 1);
    }
}

/// The first live request whose deadline is reached expires.
pub proof fn law_the_first_due_request_expires(
    entries: Seq<PendingRequest>,
    now_tick: u64,
    from: int,
)
    requires
        0 <= from <= entries.len(),
    ensures
        crate::hermes_gsp::due_slot(entries, now_tick, from) matches Some(slot) ==> from <= slot
            < entries.len() && entries[slot].live && crate::hermes_gsp::tick_reached(
            now_tick,
            entries[slot].deadline_tick,
        ) && forall|i: int|
            from <= i < slot ==> !((#[trigger] entries[i]).live && crate::hermes_gsp::tick_reached(
                now_tick,
                entries[i].deadline_tick,
            )),
        crate::hermes_gsp::due_slot(entries, now_tick, from) is None ==> forall|i: int|
            from <= i < entries.len() ==> !((#[trigger] entries[i]).live
                && crate::hermes_gsp::tick_reached(now_tick, entries[i].deadline_tick)),
    decreases entries.len() - from,
{
    if from < entries.len() && !(entries[from].live && crate::hermes_gsp::tick_reached(
        now_tick,
        entries[from].deadline_tick,
    )) {
        law_the_first_due_request_expires(entries, now_tick, from + 1);
    }
}

/// Replacing one request changes the number of live ones by that request alone.
pub proof fn law_live_requests_are_counted(
    entries: Seq<PendingRequest>,
    slot: int,
    request: PendingRequest,
)
    requires
        0 <= slot < entries.len(),
    ensures
        crate::hermes_gsp::live_in(entries.update(slot, request)) - crate::hermes_gsp::live_in(
            entries,
        ) == (if request.live {
            1int
        } else {
            0
        }) - (if entries[slot].live {
            1int
        } else {
            0
        }),
        crate::hermes_gsp::live_in(Seq::empty()) == 0,
    decreases entries.len(),
{
    let changed = entries.update(slot, request);
    if slot == entries.len() - 1 {
        assert(changed.drop_last() =~= entries.drop_last());
    } else {
        assert(changed.drop_last() =~= entries.drop_last().update(slot, request));
        law_live_requests_are_counted(entries.drop_last(), slot, request);
    }
}

/// A request that is taken in makes one more wait, and is then found; one that
/// is cancelled makes one less wait. Neither touches another request.
pub proof fn law_requests_come_and_go_one_by_one(
    entries: Seq<PendingRequest>,
    request: PendingRequest,
    epoch: u32,
    sequence: u32,
    i: int,
)
    requires
        request.live,
        0 <= i < entries.len(),
    ensures
        ({
            let (result, after) = crate::hermes_gsp::inserted(entries, request);
            &&& result is Ok ==> crate::hermes_gsp::live_in(after) == crate::hermes_gsp::live_in(
                entries,
            ) + 1 && crate::hermes_gsp::slot_of(after, request.epoch, request.sequence, 0) is Some
            &&& result is Err ==> after == entries
            &&& entries[i].live ==> after[i] == entries[i]
            &&& after.len() == entries.len()
        }),
        ({
            let after = crate::hermes_gsp::cancelled(entries, epoch, sequence);
            &&& crate::hermes_gsp::slot_of(entries, epoch, sequence, 0) is Some
                ==> crate::hermes_gsp::live_in(after) == crate::hermes_gsp::live_in(entries) - 1
            &&& !(entries[i].epoch == epoch && entries[i].sequence == sequence) ==> after[i]
                == entries[i]
            &&& after.len() == entries.len()
        }),
{
    law_a_request_is_found_by_its_correlation(entries, epoch, sequence, 0);
    law_the_first_free_slot_is_taken(entries, 0);
    let (result, after) = crate::hermes_gsp::inserted(entries, request);
    if result is Ok {
        let slot = crate::hermes_gsp::free_slot(entries, 0)->0;
        law_live_requests_are_counted(entries, slot, request);
        law_a_request_is_found_by_its_correlation(after, request.epoch, request.sequence, 0);
        assert(after[slot].live);
    }
    if let Some(slot) = crate::hermes_gsp::slot_of(entries, epoch, sequence, 0) {
        law_live_requests_are_counted(entries, slot, PendingRequest::empty());
    }
}

/// A personality's total is its own score plus the score of its proof, as far
/// as a number holds it.
pub proof fn law_totals_add_the_two_scores(score: u32, proof: GpuCompatibilityProof)
    ensures
        score + proof.score_q16 <= u32::MAX ==> crate::hermes_gsp::total_score(score, proof) - score
            == proof.score_q16,
        score + proof.score_q16 > u32::MAX ==> crate::hermes_gsp::total_score(score, proof)
            == u32::MAX,
{
}

/// Whether a judgement counts, and with which total.
pub open spec fn counts(judgement: Judgement, minimum_score: u32) -> bool {
    judgement matches Judgement::Matched { proof: _, score } && score >= minimum_score
}

pub open spec fn total_of(judgement: Judgement) -> u32 {
    crate::hermes_gsp::total_score(judgement->score, judgement->proof)
}

/// The leader is a personality that matched well enough and has the highest
/// total; there is a tie exactly when another one has the same total.
pub proof fn law_the_highest_total_leads(judgements: Seq<Judgement>, minimum_score: u32)
    ensures
        ({
            let (leader, tied) = crate::hermes_gsp::leading_of(judgements, minimum_score);
            &&& leader is None <==> forall|i: int|
                0 <= i < judgements.len() ==> !counts(#[trigger] judgements[i], minimum_score)
            &&& leader is None ==> !tied
            &&& leader matches Some((place, proof, total)) ==> {
                &&& 0 <= place < judgements.len()
                &&& counts(judgements[place], minimum_score)
                &&& judgements[place]->proof == proof
                &&& total_of(judgements[place]) == total
                &&& forall|i: int|
                    0 <= i < judgements.len() && counts(#[trigger] judgements[i], minimum_score)
                        ==> total_of(judgements[i]) <= total
                &&& tied <==> exists|i: int|
                    0 <= i < judgements.len() && i != place && counts(
                        #[trigger] judgements[i],
                        minimum_score,
                    ) && total_of(judgements[i]) == total
            }
        }),
    decreases judgements.len(),
{
    if judgements.len() > 0 {
        let earlier = judgements.drop_last();
        let last = judgements.len() - 1;
        law_the_highest_total_leads(earlier, minimum_score);
        let (before, was_tied) = crate::hermes_gsp::leading_of(earlier, minimum_score);
        let (leader, tied) = crate::hermes_gsp::leading_of(judgements, minimum_score);
        assert(forall|i: int| 0 <= i < last ==> #[trigger] earlier[i] == judgements[i]);
        assert(forall|i: int| 0 <= i < last ==> #[trigger] judgements[i] == earlier[i]);
        if let Some((place, proof, total)) = leader {
            if place == last {
                if tied {
                    assert(false);
                }
            } else if tied {
                if was_tied {
                    let i = choose|i: int|
                        0 <= i < earlier.len() && i != place && counts(
                            #[trigger] earlier[i],
                            minimum_score,
                        ) && total_of(earlier[i]) == total;
                    assert(judgements[i] == earlier[i]);
                } else {
                    assert(counts(judgements[last], minimum_score));
                }
            } else {
                assert forall|i: int|
                    0 <= i < judgements.len() && i != place && counts(
                        #[trigger] judgements[i],
                        minimum_score,
                    ) implies total_of(judgements[i]) != total by {
                    if i < last {
                        assert(earlier[i] == judgements[i]);
                    }
                }
            }
        }
    }
}

/// A service curve is taken over from the profile, each bound as itself.
pub proof fn law_the_curve_is_the_profiles(profile: HermesTransportProfile)
    ensures
        ({
            let curve = crate::hermes_gsp::profile_curve(&profile);
            &&& curve.minimum_completions_per_window == profile.minimum_completions_per_window
            &&& curve.maximum_admissions_per_window == profile.maximum_admissions_per_window
            &&& curve.window_ticks == profile.service_window_ticks
            &&& curve.latency_ticks == profile.service_latency_ticks
            &&& curve.maximum_backlog == profile.maximum_admission_backlog
        }),
{
}

/// Sequences count up from one within an epoch; behind the last comes the first
/// of the next epoch, and behind the last of all zero, which is none.
pub proof fn law_correlations_count_up(epoch: u32, sequence: u32)
    ensures
        sequence < u32::MAX ==> crate::hermes_gsp::next_correlation(epoch, sequence).0 == epoch
            && crate::hermes_gsp::next_correlation(epoch, sequence).1 - sequence == 1,
        sequence == u32::MAX && epoch < u32::MAX ==> crate::hermes_gsp::next_correlation(
            epoch,
            sequence,
        ).0 - epoch == 1 && crate::hermes_gsp::next_correlation(epoch, sequence).1 == 1,
        sequence == u32::MAX && epoch == u32::MAX ==> crate::hermes_gsp::next_correlation(
            epoch,
            sequence,
        ).1 == 0,
{
}

proof fn lemma_epoch_parts(bus: u8, slot: u8, function: u8, device: u16, tick: u64, epoch: u32)
    by (bit_vector)
    requires
        epoch == (tick as u32) ^ ((tick >> 32) as u32) ^ (((bus as u32) << 16) | ((slot as u32)
            << 8) | function as u32) ^ ((device as u32) << 1) ^ 0x4845_524d,
    ensures
        ((bus as u32) << 16) | ((slot as u32) << 8) | function as u32 == bus * 0x1_0000 + slot
            * 0x100 + function,
        (device as u32) << 1 == device * 2,
        epoch ^ 0x4845_524d ^ ((device as u32) << 1) ^ (((bus as u32) << 16) | ((slot as u32) << 8)
            | function as u32) == (tick as u32) ^ ((tick >> 32) as u32),
{
}

/// An epoch is never zero. Unless it is one, taking away the signature, twice
/// the device and the place of the function leaves the two halves of the clock.
pub proof fn law_an_epoch_tells_clock_and_place(
    identity: HermesPciIdentity,
    now_tick: u64,
    location: u32,
    device: u32,
    low: u32,
    high: u32,
)
    requires
        location == identity.bus * 0x1_0000 + identity.slot * 0x100 + identity.function,
        device == identity.device_id * 2,
        low == now_tick % 0x1_0000_0000,
        high == now_tick / 0x1_0000_0000,
    ensures
        crate::hermes_gsp::initial_epoch(&identity, now_tick) > 0,
        crate::hermes_gsp::initial_epoch(&identity, now_tick) != 1 ==> (
        crate::hermes_gsp::initial_epoch(&identity, now_tick) ^ 0x4845_524d ^ device ^ location)
            == low ^ high,
{
    let epoch = (now_tick as u32) ^ ((now_tick >> 32) as u32) ^ (((identity.bus as u32) << 16) | ((
    identity.slot as u32) << 8) | identity.function as u32) ^ ((identity.device_id as u32) << 1)
        ^ 0x4845_524d;
    lemma_epoch_parts(
        identity.bus,
        identity.slot,
        identity.function,
        identity.device_id,
        now_tick,
        epoch,
    );
    assert(now_tick as u32 == low && (now_tick >> 32) as u32 == high) by {
        crate::bits::lemma_word64(now_tick);
    }
}

/// A new transport starts at sequence one with empty rings, no features, no
/// fault and nothing pending.
pub proof fn law_a_new_transport_is_empty(
    identity: HermesPciIdentity,
    now_tick: u64,
    pending: nat,
    i: int,
)
    requires
        0 <= i < pending,
    ensures
        ({
            let runtime = crate::hermes_gsp::fresh_runtime(&identity, now_tick, pending);
            &&& runtime.epoch > 0
            &&& runtime.next_sequence == 1
            &&& runtime.command_producer == 0
            &&& runtime.event_consumer == 0
            &&& runtime.negotiated_features == 0
            &&& !runtime.poisoned
            &&& runtime.pending.len() == pending
            &&& !runtime.pending[i].live
            &&& !runtime.exhausted()
        }),
{
}

/// Refusals of admission come back as the service's own faults.
pub proof fn law_admission_faults_keep_their_meaning(fault: HermesAdmissionFault)
    ensures
        fault is BacklogSaturated <==> crate::hermes_gsp::map_admission_fault(fault)
            == HermesFault::ServiceBacklogSaturated,
        fault is ArrivalEnvelopeExceeded <==> crate::hermes_gsp::map_admission_fault(fault)
            == HermesFault::ServiceArrivalEnvelopeExceeded,
        fault is DeadlineUnsafe <==> crate::hermes_gsp::map_admission_fault(fault)
            == HermesFault::ServiceDeadlineUnsafe,
        fault is TimeRegression <==> crate::hermes_gsp::map_admission_fault(fault)
            == HermesFault::ServiceTimeRegression,
        fault is StaleReservation || fault is CorruptObservation <==>
            crate::hermes_gsp::map_admission_fault(fault) == HermesFault::ServiceReservationCorrupt,
        fault is InvalidCurve || fault is ArithmeticOverflow <==>
            crate::hermes_gsp::map_admission_fault(fault) == HermesFault::ServiceCurveRejected,
{
}

/// An identity is that of the fingerprint it was made from, and portable
/// evidence is for it only if it names the very same function.
pub proof fn law_an_identity_is_its_fingerprints(
    fingerprint: GpuFingerprint,
    portable: GpuDeviceEvidence,
)
    ensures
        ({
            let identity = crate::hermes_gsp::fingerprint_identity(&fingerprint);
            &&& (identity.segment, identity.bus, identity.slot, identity.function) == (
                fingerprint.segment,
                fingerprint.bus,
                fingerprint.slot,
                fingerprint.function,
            )
            &&& (identity.vendor_id, identity.device_id, identity.revision) == (
                fingerprint.vendor_id,
                fingerprint.device_id,
                fingerprint.revision,
            )
            &&& (identity.subsystem_vendor_id, identity.subsystem_device_id) == (
                fingerprint.subsystem_vendor_id,
                fingerprint.subsystem_device_id,
            )
            &&& (identity.class_code, identity.subclass, identity.programming_interface) == (
                fingerprint.class_code,
                fingerprint.subclass,
                fingerprint.programming_interface,
            )
            &&& crate::hermes_gsp::portable_identity_matches(&identity, &portable) ==> (
                portable.identity.segment,
                portable.identity.bus,
                portable.identity.slot,
                portable.identity.function,
            ) == (fingerprint.segment, fingerprint.bus, fingerprint.slot, fingerprint.function) && (
                portable.identity.vendor_id,
                portable.identity.device_id,
                portable.identity.revision,
            ) == (fingerprint.vendor_id, fingerprint.device_id, fingerprint.revision)
        }),
{
}

} // verus!
