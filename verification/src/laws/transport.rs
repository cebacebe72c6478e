//! Laws of what a transport asks of its platform.

use vstd::prelude::*;

use crate::hermes_abi::CommandShape;
use crate::hermes_abi::HermesBootInstruction;
use crate::hermes_abi::HermesNormalizedEvent;
use crate::hermes_abi::HermesPciIdentity;
use crate::hermes_abi::HermesProbeEvidence;
use crate::hermes_abi::HermesTransportProfile;
use crate::hermes_gsp::DmaRegion;
use crate::hermes_gsp::HermesFault;
use crate::hermes_gsp::HermesPlatform;
use crate::hermes_gsp::MmioWindow;
use crate::hermes_gsp::PendingRequest;
use crate::hermes_gsp::RuntimeView;
use crate::hermes_trace::HermesEvent;
use crate::hermes_transport::EventDisposition;
use crate::hermes_transport::HermesLease;
use crate::hermes_transport::LeaseView;
use crate::hermes_transport::ReceivedEvent;
use crate::hermes_transport::Submission;

verus! {

/// A register of a leased window took a value.
pub open spec fn took<B: HermesPlatform>(
    event: HermesEvent<B>,
    lease: HermesLease<B>,
    bar: int,
    offset: int,
    value: int,
) -> bool {
    &&& 0 <= bar < 6
    &&& lease.bars[bar] is Some
    &&& event is Write
    &&& event->Write_window == lease.bars[bar]->0
    &&& event->Write_offset == offset
    &&& event->Write_value == value
    &&& event->Write_reply is Ok
    &&& offset % 4 == 0
    &&& offset + 4 <= lease.bars[bar]->0.length
}

/// A register of a leased window gave a value.
pub open spec fn gave<B: HermesPlatform>(
    event: HermesEvent<B>,
    lease: HermesLease<B>,
    bar: int,
    offset: int,
) -> bool {
    &&& 0 <= bar < 6
    &&& lease.bars[bar] is Some
    &&& event is Read
    &&& event->Read_window == lease.bars[bar]->0
    &&& event->Read_offset == offset
    &&& event->Read_reply is Ok
    &&& offset % 4 == 0
    &&& offset + 4 <= lease.bars[bar]->0.length
}

pub open spec fn fenced<B: HermesPlatform>(event: HermesEvent<B>) -> bool {
    event is Fence && event->Fence_reply is Ok
}

/// A register access is aligned to four bytes and ends inside its window.
pub proof fn law_register_accesses_are_aligned<Handle: Copy>(
    window: MmioWindow<Handle>,
    offset: u32,
    width: u64,
)
    ensures
        crate::hermes_gsp::validate_mmio_access(window, offset, width) is Ok <==> offset % 4 == 0
            && offset + width <= window.length,
{
    crate::bits::lemma_word32(offset);
}

/// A write goes to the window of its BAR, at its offset, with its value.
pub proof fn law_a_register_write_is_one_event<B: HermesPlatform>(
    lease: HermesLease<B>,
    bar: u8,
    offset: u32,
    value: u32,
    log: Seq<HermesEvent<B>>,
    at: int,
    end: int,
)
    requires
        crate::hermes_transport::write_run(lease, bar, offset, value, log, at) == Some(
            (Ok::<(), HermesFault>(()), end),
        ),
    ensures
        end == at + 1,
        0 <= at < log.len(),
        took(log[at], lease, bar as int, offset as int, value as int),
{
    law_register_accesses_are_aligned(lease.window_of(bar)->0, offset, 4);
}

/// A read comes from the window of its BAR, at its offset.
pub proof fn law_a_register_read_is_one_event<B: HermesPlatform>(
    lease: HermesLease<B>,
    bar: u8,
    offset: u32,
    log: Seq<HermesEvent<B>>,
    at: int,
    value: u32,
    end: int,
)
    requires
        crate::hermes_transport::read_run(lease, bar, offset, log, at) == Some(
            (Ok::<u32, HermesFault>(value), end),
        ),
    ensures
        end == at + 1,
        0 <= at < log.len(),
        gave(log[at], lease, bar as int, offset as int),
        log[at]->Read_reply->Ok_0 == value,
{
    law_register_accesses_are_aligned(lease.window_of(bar)->0, offset, 4);
}

/// Two of three readings that agree decide, and three that differ decide
/// nothing.
pub proof fn law_two_of_three_readings_decide(first: u32, second: u32, third: u32)
    ensures
        forall|value: u32|
            crate::hermes_transport::consensus(first, second, third) == Ok::<u32, HermesFault>(
                value,
            ) <==> (value == first && value == second) || (value == first && value == third) || (
            value == second && #[trigger] value.wrapping_add(0) == third),
        crate::hermes_transport::consensus(first, second, third) is Err <==> first != second
            && second != third && first != third,
{
}

/// A value that decides was read three times from one register, and at least
/// twice as it is.
pub proof fn law_a_decided_value_was_read_three_times<B: HermesPlatform>(
    lease: HermesLease<B>,
    bar: u8,
    offset: u32,
    log: Seq<HermesEvent<B>>,
    at: int,
    value: u32,
    end: int,
)
    requires
        crate::hermes_transport::consensus_run(lease, bar, offset, log, at) == Some(
            (Ok::<u32, HermesFault>(value), end),
        ),
    ensures
        end == at + 3,
        0 <= at,
        end <= log.len(),
        gave(log[at], lease, bar as int, offset as int),
        gave(log[at + 1], lease, bar as int, offset as int),
        gave(log[at + 2], lease, bar as int, offset as int),
        (log[at]->Read_reply->Ok_0 == value && log[at + 1]->Read_reply->Ok_0 == value) || (
        log[at]->Read_reply->Ok_0 == value && log[at + 2]->Read_reply->Ok_0 == value) || (log[at
            + 1]->Read_reply->Ok_0 == value && log[at + 2]->Read_reply->Ok_0 == value),
{
    law_register_accesses_are_aligned(lease.window_of(bar)->0, offset, 4);
}

/// An address is its high word times 2^32 plus its low word.
pub proof fn law_an_address_is_two_words(address: u64)
    ensures
        crate::hermes_transport::high_word(address) * 0x1_0000_0000
            + crate::hermes_transport::low_word(address) == address,
{
    crate::bits::lemma_word64(address);
}

/// A firmware address instruction that succeeds leaves the region's device
/// address in the registers of its second and third word, low half first, and
/// the length in the register of its fourth word, all in the BAR of its first,
/// before a fence.
pub proof fn law_firmware_is_handed_over_by_address_and_length<B: HermesPlatform>(
    profile: HermesTransportProfile,
    lease: HermesLease<B>,
    instruction: HermesBootInstruction,
    deadline_tick: u64,
    log: Seq<HermesEvent<B>>,
    at: int,
    end: int,
)
    requires
        instruction.opcode == 5,
        crate::hermes_transport::instruction_run(
            profile,
            lease,
            instruction,
            deadline_tick,
            log,
            at,
        ) == Some((Ok::<(), HermesFault>(()), end)),
    ensures
        end == at + 4,
        lease.firmware matches Some(region) && {
            let (low, high) = (log[at]->Write_value, log[at + 1]->Write_value);
            let bar = instruction.words[0] as int;
            &&& high * 0x1_0000_0000 + low == region.device_address
            &&& took(log[at], lease, bar, instruction.words[1] as int, low as int)
            &&& took(log[at + 1], lease, bar, instruction.words[2] as int, high as int)
            &&& took(log[at + 2], lease, bar, instruction.words[3] as int, region.length as int)
            &&& fenced(log[at + 3])
        },
{
    let region = lease.firmware->0;
    let words = instruction.words;
    law_an_address_is_two_words(region.device_address);
    let window = lease.window_of(words[0] as u8)->0;
    law_register_accesses_are_aligned(window, words[1] as u32, 4);
    law_register_accesses_are_aligned(window, words[2] as u32, 4);
    law_register_accesses_are_aligned(window, words[3] as u32, 4);
}

proof fn lemma_published<B: HermesPlatform>(
    lease: HermesLease<B>,
    instruction: HermesBootInstruction,
    ring: DmaRegion<B::Dma>,
    depth: u16,
    slot: u16,
    log: Seq<HermesEvent<B>>,
    at: int,
    end: int,
)
    requires
        crate::hermes_transport::publish_run(lease, instruction, ring, depth, slot, log, at)
            == Some((Ok::<(), HermesFault>(()), end)),
    ensures
        announces(lease, instruction, ring, depth, slot, log, at, end),
{
    let words = instruction.words;
    law_an_address_is_two_words(ring.device_address);
    let window = lease.window_of(words[0] as u8)->0;
    law_register_accesses_are_aligned(window, words[1] as u32, 4);
    law_register_accesses_are_aligned(window, words[2] as u32, 4);
    law_register_accesses_are_aligned(window, words[3] as u32, 4);
    law_register_accesses_are_aligned(window, words[4] as u32, 4);
}

/// A ring is announced by its device address in the registers of the second and
/// third word, low half first, its depth and its slot size in those of the
/// fourth and fifth, and a fence. Depth and slot size are also the sixth and
/// seventh word, and the ring is long enough for them.
pub open spec fn announces<B: HermesPlatform>(
    lease: HermesLease<B>,
    instruction: HermesBootInstruction,
    ring: DmaRegion<B::Dma>,
    depth: u16,
    slot: u16,
    log: Seq<HermesEvent<B>>,
    at: int,
    end: int,
) -> bool {
    let (low, high) = (log[at]->Write_value, log[at + 1]->Write_value);
    let bar = instruction.words[0] as int;
    &&& end == at + 5
    &&& high * 0x1_0000_0000 + low == ring.device_address
    &&& took(log[at], lease, bar, instruction.words[1] as int, low as int)
    &&& took(log[at + 1], lease, bar, instruction.words[2] as int, high as int)
    &&& took(log[at + 2], lease, bar, instruction.words[3] as int, depth as int)
    &&& took(log[at + 3], lease, bar, instruction.words[4] as int, slot as int)
    &&& fenced(log[at + 4])
    &&& instruction.words[5] == depth
    &&& instruction.words[6] == slot
    &&& depth * slot <= ring.length
}

/// Queue instructions announce the ring of their direction with the profile's
/// depth and slot size.
pub proof fn law_rings_are_announced_by_address_and_shape<B: HermesPlatform>(
    profile: HermesTransportProfile,
    lease: HermesLease<B>,
    instruction: HermesBootInstruction,
    deadline_tick: u64,
    log: Seq<HermesEvent<B>>,
    at: int,
    end: int,
)
    requires
        instruction.opcode == 6 || instruction.opcode == 7,
        crate::hermes_transport::instruction_run(
            profile,
            lease,
            instruction,
            deadline_tick,
            log,
            at,
        ) == Some((Ok::<(), HermesFault>(()), end)),
    ensures
        instruction.opcode == 6 ==> lease.command_ring is Some && announces(
            lease,
            instruction,
            lease.command_ring->0,
            profile.command_depth,
            profile.command_slot_bytes,
            log,
            at,
            end,
        ),
        instruction.opcode == 7 ==> lease.event_ring is Some && announces(
            lease,
            instruction,
            lease.event_ring->0,
            profile.event_depth,
            profile.event_slot_bytes,
            log,
            at,
            end,
        ),
{
    if instruction.opcode == 6 {
        lemma_published(
            lease,
            instruction,
            lease.command_ring->0,
            profile.command_depth,
            profile.command_slot_bytes,
            log,
            at,
            end,
        );
    } else {
        lemma_published(
            lease,
            instruction,
            lease.event_ring->0,
            profile.event_depth,
            profile.event_slot_bytes,
            log,
            at,
            end,
        );
    }
}

proof fn lemma_masked(
    current: u32,
    clear: u32,
    set: u32,
    mask: u32,
    word: u64,
    major: u16,
    low: u16,
    high: u16,
)
    by (bit_vector)
    ensures
        ((current & !clear) | set) & set == set,
        ((current & !clear) | set) & !(clear | set) == current & !(clear | set),
        ((current & !clear) | set) & (clear & !set) == 0,
        current & mask == set & mask <==> (current ^ set) & mask == 0,
        (word >> 32) as u16 == word / 0x1_0000_0000 % 0x1_0000,
        word as u16 == word % 0x1_0000,
        ((major as u64) << 32) | ((low as u64) << 16) | high as u64 == major * 0x1_0000_0000 + low
            * 0x1_0000 + high,
{
}

/// A plain write instruction writes its third word to the register of its second
/// in the BAR of its first; a doorbell does the same and fences.
pub proof fn law_a_write_instruction_writes_its_word<B: HermesPlatform>(
    profile: HermesTransportProfile,
    lease: HermesLease<B>,
    instruction: HermesBootInstruction,
    deadline_tick: u64,
    log: Seq<HermesEvent<B>>,
    at: int,
    end: int,
)
    requires
        instruction.opcode == 1 || instruction.opcode == 8,
        crate::hermes_transport::instruction_run(
            profile,
            lease,
            instruction,
            deadline_tick,
            log,
            at,
        ) == Some((Ok::<(), HermesFault>(()), end)),
    ensures
        took(
            log[at],
            lease,
            instruction.words[0] as int,
            instruction.words[1] as int,
            instruction.words[2] as int,
        ),
        instruction.opcode == 1 ==> end == at + 1,
        instruction.opcode == 8 ==> end == at + 2 && fenced(log[at + 1]),
{
    let words = instruction.words;
    law_register_accesses_are_aligned(
        lease.window_of(words[0] as u8)->0,
        words[1] as u32,
        4,
    );
}

/// A modifying instruction reads a register three times and writes it once: the
/// bits of its fourth word come out set, those of its third otherwise clear, and
/// every other bit as it was read.
pub proof fn law_a_modifying_instruction_changes_only_its_bits<B: HermesPlatform>(
    profile: HermesTransportProfile,
    lease: HermesLease<B>,
    instruction: HermesBootInstruction,
    deadline_tick: u64,
    log: Seq<HermesEvent<B>>,
    at: int,
    end: int,
)
    requires
        instruction.opcode == 2,
        crate::hermes_transport::instruction_run(
            profile,
            lease,
            instruction,
            deadline_tick,
            log,
            at,
        ) == Some((Ok::<(), HermesFault>(()), end)),
    ensures
        end == at + 4,
        ({
            let (bar, offset) = (instruction.words[0] as int, instruction.words[1] as int);
            let (clear, set) = (instruction.words[2] as u32, instruction.words[3] as u32);
            let written = log[at + 3]->Write_value;
            &&& gave(log[at], lease, bar, offset)
            &&& gave(log[at + 1], lease, bar, offset)
            &&& gave(log[at + 2], lease, bar, offset)
            &&& took(log[at + 3], lease, bar, offset, written as int)
            &&& written & set == set
            &&& written & (clear & !set) == 0
            &&& exists|current: u32|
                #![trigger current & !(clear | set)]
                written & !(clear | set) == current & !(clear | set) && (log[at]->Read_reply->Ok_0
                    == current || log[at + 1]->Read_reply->Ok_0 == current)
        }),
{
    let words = instruction.words;
    let (bar, offset) = (words[0] as u8, words[1] as u32);
    let (read, next) = crate::hermes_transport::consensus_run(lease, bar, offset, log, at).unwrap();
    let current = read->Ok_0;
    law_a_decided_value_was_read_three_times(lease, bar, offset, log, at, current, next);
    let (clear, set) = (words[2] as u32, words[3] as u32);
    lemma_masked(current, clear, set, 0, 0, 0, 0, 0);
    law_a_register_write_is_one_event(
        lease,
        bar,
        offset,
        (current & !clear) | set,
        log,
        next,
        end,
    );
    assert(log[at + 3]->Write_value & !(clear | set) == current & !(clear | set));
}

/// An asserting instruction succeeds only where the register agrees with its
/// fourth word on every bit of its third, and changes nothing.
pub proof fn law_an_asserting_instruction_compares_under_its_mask<B: HermesPlatform>(
    profile: HermesTransportProfile,
    lease: HermesLease<B>,
    instruction: HermesBootInstruction,
    deadline_tick: u64,
    log: Seq<HermesEvent<B>>,
    at: int,
    result: Result<(), HermesFault>,
    end: int,
)
    requires
        instruction.opcode == 10,
        end == at + 3,
        crate::hermes_transport::instruction_run(
            profile,
            lease,
            instruction,
            deadline_tick,
            log,
            at,
        ) == Some((result, end)),
    ensures
        ({
            let (bar, offset) = (instruction.words[0] as u8, instruction.words[1] as u32);
            let (mask, expected) = (instruction.words[2] as u32, instruction.words[3] as u32);
            crate::hermes_transport::consensus_run(lease, bar, offset, log, at) matches Some(
                (Ok(value), _),
            ) ==> (result is Ok <==> (value ^ expected) & mask == 0)
        }),
{
    let (bar, offset) = (instruction.words[0] as u8, instruction.words[1] as u32);
    let (mask, expected) = (instruction.words[2] as u32, instruction.words[3] as u32);
    if let Some((Ok(value), _)) = crate::hermes_transport::consensus_run(
        lease,
        bar,
        offset,
        log,
        at,
    ) {
        lemma_masked(value, 0, expected, mask, 0, 0, 0, 0);
    }
}

/// Polling succeeds on a last reading that shows no fault bit and agrees with
/// what is expected on every masked bit.
pub proof fn law_polling_ends_on_an_agreeing_value<B: HermesPlatform>(
    fault_mask: u32,
    lease: HermesLease<B>,
    bar: u8,
    offset: u32,
    mask: u32,
    expected: u32,
    deadline_tick: u64,
    samples: nat,
    log: Seq<HermesEvent<B>>,
    at: int,
    end: int,
)
    requires
        samples < crate::hermes_gsp::MAXIMUM_POLL_SAMPLES,
        crate::hermes_transport::poll_run(
            fault_mask,
            lease,
            bar,
            offset,
            mask,
            expected,
            deadline_tick,
            samples,
            log,
            at,
        ) == Some((Ok::<(), HermesFault>(()), end)),
    ensures
        at + 3 <= end,
        crate::hermes_transport::consensus_run(lease, bar, offset, log, end - 3) matches Some(
            (Ok(value), after),
        ) && after == end && value & fault_mask == 0 && (value ^ expected) & mask == 0,
        end > at + 3 ==> (log[at + 3] matches HermesEvent::Now { tick }
            && !crate::hermes_gsp::tick_reached(tick, deadline_tick)) && log[at + 4] is Relax,
    decreases crate::hermes_gsp::MAXIMUM_POLL_SAMPLES - samples,
{
    let (read, next) = crate::hermes_transport::consensus_run(lease, bar, offset, log, at).unwrap();
    let value = read->Ok_0;
    law_a_decided_value_was_read_three_times(lease, bar, offset, log, at, value, next);
    lemma_masked(value, 0, expected, mask, 0, 0, 0, 0);
    if value & mask != expected & mask {
        law_polling_ends_on_an_agreeing_value(
            fault_mask,
            lease,
            bar,
            offset,
            mask,
            expected,
            deadline_tick,
            samples + 1,
            log,
            next + 2,
            end,
        );
    }
}

/// A wait that ends well ends on a tick at or past its deadline, and every tick
/// before it was earlier.
pub proof fn law_a_wait_ends_at_its_deadline<B: HermesPlatform>(
    deadline_tick: u64,
    spins: nat,
    log: Seq<HermesEvent<B>>,
    at: int,
    end: int,
)
    requires
        crate::hermes_transport::wait_run(deadline_tick, spins, log, at) == Some((true, end)),
    ensures
        at < end <= at + 2 * spins,
        log[end - 1] matches HermesEvent::Now { tick } && crate::hermes_gsp::tick_reached(
            tick,
            deadline_tick,
        ),
        end > at + 1 ==> (log[at] matches HermesEvent::Now { tick }
            && !crate::hermes_gsp::tick_reached(tick, deadline_tick)),
    decreases spins,
{
    let now = crate::hermes_transport::now_at(log, at)->0;
    if !crate::hermes_gsp::tick_reached(now, deadline_tick) {
        law_a_wait_ends_at_its_deadline(deadline_tick, (spins - 1) as nat, log, at + 2, end);
    }
}

/// On a clock that wraps, a deadline is reached from its tick on for half of the
/// clock's range; the earlier of two deadlines is the one reached first.
pub proof fn law_deadlines_on_a_wrapping_clock(now: u64, deadline: u64)
    ensures
        crate::hermes_gsp::tick_reached(now, deadline) <==> (deadline <= now < deadline
            + 0x8000_0000_0000_0000) || now + 0x8000_0000_0000_0000 < deadline,
        deadline <= now < deadline + 0x8000_0000_0000_0000 ==> crate::hermes_gsp::earlier_deadline(
            now,
            deadline,
        ) == deadline && crate::hermes_gsp::earlier_deadline(deadline, now) == deadline,
{
}

/// Ring slots lie one behind the other and wrap round at the depth: slot `n` of
/// a ring begins `slot_bytes` after slot `n - 1`, and all end inside the ring.
pub proof fn law_ring_slots_lie_one_behind_the_other(index: u32, depth: u16, slot_bytes: u16)
    requires
        crate::hermes_gsp::ring_well_shaped(depth, slot_bytes),
    ensures
        crate::hermes_transport::slot_offset(index, depth, slot_bytes) == index % (depth as u32)
            * slot_bytes,
        crate::hermes_transport::slot_offset(index, depth, slot_bytes) + slot_bytes <= depth
            * slot_bytes,
        index < u32::MAX && (index + 1) % depth as int != 0 ==> crate::hermes_transport::slot_offset(
            (index + 1) as u32,
            depth,
            slot_bytes,
        ) - crate::hermes_transport::slot_offset(index, depth, slot_bytes) == slot_bytes,
        index % (depth as u32) == 0 ==> crate::hermes_transport::slot_offset(
            index,
            depth,
            slot_bytes,
        ) == 0,
{
    crate::hermes_transport::law_ring_slots_cycle(index, depth);
    let slot = (index % (depth as u32)) as int;
    let (d, b) = (depth as int, slot_bytes as int);
    assert(slot * b + b <= d * b && slot * b <= 0xffff * 0xffff) by (nonlinear_arith)
        requires
            0 <= slot < d <= 0xffff,
            0 <= b <= 0xffff,
    ;
    if index < u32::MAX && (index + 1) % depth as int != 0 {
        let next = (index + 1) as u32;
        crate::hermes_transport::law_ring_slots_cycle(next, depth);
        let i = index as int;
        vstd::arithmetic::div_mod::lemma_fundamental_div_mod(i, d);
        vstd::arithmetic::div_mod::lemma_fundamental_div_mod(i + 1, d);
        assert((i + 1) % d == i % d + 1) by (nonlinear_arith)
            requires
                d > 0,
                i == d * (i / d) + i % d,
                i + 1 == d * ((i + 1) / d) + (i + 1) % d,
                0 <= i % d < d,
                0 < (i + 1) % d < d,
        ;
        assert((slot + 1) * b == slot * b + b) by (nonlinear_arith);
        assert((slot + 1) * b <= 0xffff * 0xffff) by (nonlinear_arith)
            requires
                0 <= slot + 1 <= 0xffff,
                0 <= b <= 0xffff,
        ;
    }
    if index % (depth as u32) == 0 {
        assert(slot * b == 0) by (nonlinear_arith)
            requires
                slot == 0,
        ;
    }
}

/// A command that goes out was written to the next slot of a ring with room,
/// published whole, and counted by one at the producer register and the
/// doorbell, with a fence before and after.
pub proof fn law_a_command_goes_into_the_next_slot<B: HermesPlatform>(
    profile: HermesTransportProfile,
    lease: HermesLease<B>,
    runtime: RuntimeView,
    command: CommandShape,
    log: Seq<HermesEvent<B>>,
    at: int,
    after: RuntimeView,
    end: int,
)
    requires
        crate::hermes_transport::send_run(profile, lease, runtime, command, log, at) == Some(
            (Ok::<(), HermesFault>(()), after, end),
        ),
    ensures
        end == at + 8,
        lease.command_ring is Some,
        gave(log[at], lease, profile.control_bar as int, profile.command_consumer_offset as int),
        runtime.command_producer.wrapping_sub(log[at]->Read_reply->Ok_0) < profile.command_depth,
        log[at + 1] is Encode,
        log[at + 1]->Encode_command == command,
        log[at + 1]->Encode_profile == profile,
        log[at + 1]->Encode_reply matches Ok(length) && 0 < length <= profile.command_slot_bytes
            && length <= profile.maximum_wire_bytes,
        log[at + 2] is DmaWrite,
        log[at + 2]->DmaWrite_region == lease.command_ring->0,
        log[at + 2]->DmaWrite_offset == crate::hermes_transport::slot_offset(
            runtime.command_producer,
            profile.command_depth,
            profile.command_slot_bytes,
        ),
        log[at + 2]->DmaWrite_bytes == log[at + 1]->Encode_wire,
        log[at + 3] is Publish,
        log[at + 3]->Publish_region == lease.command_ring->0,
        log[at + 3]->Publish_offset == log[at + 2]->DmaWrite_offset,
        log[at + 3]->Publish_length == profile.command_slot_bytes,
        fenced(log[at + 4]),
        took(
            log[at + 5],
            lease,
            profile.control_bar as int,
            profile.command_producer_offset as int,
            after.command_producer as int,
        ),
        took(
            log[at + 6],
            lease,
            profile.doorbell_bar as int,
            profile.command_doorbell_offset as int,
            after.command_producer as int,
        ),
        fenced(log[at + 7]),
        after.command_producer as int == (runtime.command_producer + 1) % 0x1_0000_0000,
        after == (RuntimeView { command_producer: after.command_producer, ..runtime }),
{
    law_register_accesses_are_aligned(
        lease.window_of(profile.control_bar)->0,
        profile.command_consumer_offset,
        4,
    );
    law_register_accesses_are_aligned(
        lease.window_of(profile.control_bar)->0,
        profile.command_producer_offset,
        4,
    );
    law_register_accesses_are_aligned(
        lease.window_of(profile.doorbell_bar)->0,
        profile.command_doorbell_offset,
        4,
    );
}

/// A command ring that is full takes nothing, and one that counts more than it
/// holds is corrupt and poisons the transport.
pub proof fn law_a_full_ring_takes_nothing<B: HermesPlatform>(
    profile: HermesTransportProfile,
    lease: HermesLease<B>,
    runtime: RuntimeView,
    command: CommandShape,
    log: Seq<HermesEvent<B>>,
    at: int,
    consumer: u32,
    next: int,
)
    requires
        crate::hermes_transport::read_run(
            lease,
            profile.control_bar,
            profile.command_consumer_offset,
            log,
            at,
        ) == Some((Ok::<u32, HermesFault>(consumer), next)),
    ensures
        runtime.command_producer.wrapping_sub(consumer) == profile.command_depth
            ==> crate::hermes_transport::send_run(profile, lease, runtime, command, log, at)
            == Some((Err::<(), _>(HermesFault::QueueFull), runtime, next)),
        runtime.command_producer.wrapping_sub(consumer) > profile.command_depth
            ==> crate::hermes_transport::send_run(profile, lease, runtime, command, log, at)
            == Some(
            (
                Err::<(), _>(HermesFault::QueueCorrupt),
                (RuntimeView { poisoned: true, ..runtime }),
                next,
            ),
        ),
{
}

/// An event that comes in was acquired and read whole from the consumer's slot,
/// is of this epoch and no larger than it may be, and is counted by one at the
/// consumer register and the doorbell before a fence.
pub proof fn law_an_event_comes_from_the_next_slot<B: HermesPlatform>(
    profile: HermesTransportProfile,
    lease: HermesLease<B>,
    runtime: RuntimeView,
    log: Seq<HermesEvent<B>>,
    at: int,
    event: HermesNormalizedEvent,
    after: RuntimeView,
    end: int,
)
    requires
        crate::hermes_transport::receive_run(profile, lease, runtime, log, at) == Some(
            (Ok::<_, HermesFault>(Some(event)), after, end),
        ),
    ensures
        end == at + 7,
        lease.event_ring is Some,
        gave(log[at], lease, profile.control_bar as int, profile.event_producer_offset as int),
        0 < log[at]->Read_reply->Ok_0.wrapping_sub(runtime.event_consumer) <= profile.event_depth,
        log[at + 1] is Acquire,
        log[at + 1]->Acquire_region == lease.event_ring->0,
        log[at + 1]->Acquire_offset == crate::hermes_transport::slot_offset(
            runtime.event_consumer,
            profile.event_depth,
            profile.event_slot_bytes,
        ),
        log[at + 1]->Acquire_length == profile.event_slot_bytes,
        log[at + 2] is DmaRead,
        log[at + 2]->DmaRead_region == lease.event_ring->0,
        log[at + 2]->DmaRead_offset == log[at + 1]->Acquire_offset,
        log[at + 2]->DmaRead_room == profile.event_slot_bytes,
        log[at + 3] is Decode,
        log[at + 3]->Decode_wire == log[at + 2]->DmaRead_bytes,
        log[at + 3]->Decode_reply == Ok::<_, HermesFault>(event),
        event.struct_size >= 368,
        event.payload_length <= 256,
        event.epoch == runtime.epoch,
        took(
            log[at + 4],
            lease,
            profile.control_bar as int,
            profile.event_consumer_offset as int,
            after.event_consumer as int,
        ),
        took(
            log[at + 5],
            lease,
            profile.doorbell_bar as int,
            profile.event_doorbell_offset as int,
            after.event_consumer as int,
        ),
        fenced(log[at + 6]),
        after.event_consumer as int == (runtime.event_consumer + 1) % 0x1_0000_0000,
        after == (RuntimeView { event_consumer: after.event_consumer, ..runtime }),
{
    law_register_accesses_are_aligned(
        lease.window_of(profile.control_bar)->0,
        profile.event_producer_offset,
        4,
    );
    law_register_accesses_are_aligned(
        lease.window_of(profile.control_bar)->0,
        profile.event_consumer_offset,
        4,
    );
    law_register_accesses_are_aligned(
        lease.window_of(profile.doorbell_bar)->0,
        profile.event_doorbell_offset,
        4,
    );
}

/// A submission that succeeds was asked for before its deadline, reserved
/// against the requests that were waiting, and is known by the transport's epoch
/// and next sequence.
pub proof fn law_a_submission_is_reserved_first<B: HermesPlatform>(
    profile: HermesTransportProfile,
    lease: HermesLease<B>,
    runtime: RuntimeView,
    asked: Submission,
    log: Seq<HermesEvent<B>>,
    at: int,
    correlation: (u32, u32),
    after: RuntimeView,
    end: int,
)
    requires
        crate::hermes_transport::submit_run(profile, lease, runtime, asked, log, at) == Some(
            (Ok::<_, HermesFault>(correlation), after, end),
        ),
    ensures
        !runtime.poisoned,
        asked.opcode != 0,
        asked.payload.len() <= 256,
        correlation == (runtime.epoch, runtime.next_sequence),
        log[at] is Now,
        !crate::hermes_gsp::tick_reached(log[at]->Now_tick, asked.deadline_tick),
        log[at + 1] is Reserve,
        log[at + 1]->Reserve_now_tick == log[at]->Now_tick,
        log[at + 1]->Reserve_deadline_tick == asked.deadline_tick,
        log[at + 1]->Reserve_backlog == crate::hermes_gsp::live_in(runtime.pending),
        log[at + 1]->Reserve_reply is Ok,
        after.last_admission == log[at + 1]->Reserve_reply->Ok_0,
        end == at + 10,
        log[at + 3] is Encode,
        log[at + 3]->Encode_command == crate::hermes_abi::shape_with(
            correlation,
            asked.opcode,
            asked.flags,
            asked.object,
            asked.arguments,
            asked.payload,
            asked.deadline_tick,
        ),
{
    let admission = log[at + 1]->Reserve_reply->Ok_0;
    let taken = runtime.advanced();
    let request = PendingRequest {
        live: true,
        epoch: runtime.epoch,
        sequence: runtime.next_sequence,
        opcode: asked.opcode,
        deadline_tick: asked.deadline_tick,
        admission,
    };
    let pending = crate::hermes_gsp::inserted(taken.pending, request).1;
    let waiting = RuntimeView { pending, ..taken };
    let command = crate::hermes_abi::shape_with(
        correlation,
        asked.opcode,
        asked.flags,
        asked.object,
        asked.arguments,
        asked.payload,
        asked.deadline_tick,
    );
    let (sent, later, next) = crate::hermes_transport::send_run(
        profile,
        lease,
        waiting,
        command,
        log,
        at + 2,
    ).unwrap();
    law_a_command_goes_into_the_next_slot(
        profile,
        lease,
        waiting,
        command,
        log,
        at + 2,
        later,
        next,
    );
}

/// What becomes of an event depends on its kind alone: 1 is a reply and must
/// answer a request, 2 is asynchronous, 3 is a fault and never delivered, and
/// any other is handed on unclassified.
pub proof fn law_events_are_told_apart_by_kind<B: HermesPlatform>(
    profile: HermesTransportProfile,
    lease: HermesLease<B>,
    runtime: RuntimeView,
    log: Seq<HermesEvent<B>>,
    at: int,
    received: ReceivedEvent,
    after: RuntimeView,
    end: int,
)
    requires
        crate::hermes_transport::event_run(profile, lease, runtime, log, at) == Some(
            (Ok::<_, HermesFault>(Some(received)), after, end),
        ),
    ensures
        received.event.event_kind != 3,
        received.event.event_kind == 1 <==> received.disposition is Reply,
        received.event.event_kind == 2 <==> received.disposition is Asynchronous,
        received.disposition matches EventDisposition::Reply { epoch, sequence } ==> epoch
            == received.event.correlation_epoch && sequence == received.event.correlation_sequence,
        received.event.epoch == runtime.epoch,
        !runtime.poisoned,
{
    let (heard, later, next) = crate::hermes_transport::receive_run(
        profile,
        lease,
        runtime,
        log,
        at,
    ).unwrap();
    let event = heard->Ok_0->0;
    law_an_event_comes_from_the_next_slot(profile, lease, runtime, log, at, event, later, next);
    crate::laws::gsp::law_a_request_is_found_by_its_correlation(
        later.pending,
        event.correlation_epoch,
        event.correlation_sequence,
        0,
    );
}

/// The negotiated wire lies inside what was offered, and every required feature
/// was granted; a fault, a foreign reply or an error status ends it.
pub proof fn law_a_negotiation_stays_inside_the_offer(
    profile: HermesTransportProfile,
    correlation: (u32, u32),
    event: HermesNormalizedEvent,
)
    ensures
        crate::hermes_transport::negotiation_fault(&profile, correlation, &event) is None <==> {
            &&& event.event_kind == 1
            &&& event.correlation_epoch == correlation.0
            &&& event.correlation_sequence == correlation.1
            &&& event.opcode == crate::hermes_gsp::HERMES_OPCODE_NEGOTIATE
            &&& event.status == 0
            &&& event.arguments[1] / 0x1_0000_0000 % 0x1_0000 == profile.wire_major
            &&& profile.wire_minor_minimum <= event.arguments[1] % 0x1_0000
                <= profile.wire_minor_maximum
            &&& event.arguments[0] & profile.required_features == profile.required_features
        },
        event.event_kind == 3 <==> crate::hermes_transport::negotiation_fault(
            &profile,
            correlation,
            &event,
        ) == Some(HermesFault::DeviceFault),
{
    lemma_masked(0, 0, 0, 0, event.arguments[1], 0, 0, 0);
}

/// The offer joins major version, lowest and highest minor version.
pub proof fn law_the_offer_joins_the_versions(profile: HermesTransportProfile)
    ensures
        crate::hermes_transport::offered_wire(&profile) == profile.wire_major * 0x1_0000_0000
            + profile.wire_minor_minimum * 0x1_0000 + profile.wire_minor_maximum,
{
    lemma_masked(
        0,
        0,
        0,
        0,
        0,
        profile.wire_major,
        profile.wire_minor_minimum,
        profile.wire_minor_maximum,
    );
}

/// Zeroing a region writes zeroes from its first byte to its last, in pieces of
/// 128, and publishes the whole.
pub proof fn law_a_ring_is_zeroed_whole<B: HermesPlatform>(
    region: DmaRegion<B::Dma>,
    offset: nat,
    log: Seq<HermesEvent<B>>,
    at: int,
    end: int,
)
    requires
        offset <= region.length,
        crate::hermes_transport::zero_run(region, offset, log, at) == Some(
            (Ok::<(), HermesFault>(()), end),
        ),
    ensures
        at < end <= log.len(),
        log[end - 1] is Publish,
        log[end - 1]->Publish_region == region,
        log[end - 1]->Publish_offset == 0,
        log[end - 1]->Publish_length == region.length,
        offset < region.length ==> end > at + 1 && log[at] is DmaWrite && log[at]->DmaWrite_region
            == region && log[at]->DmaWrite_offset == offset,
        forall|i: int|
            #![trigger log[i]]
            at <= i < end - 1 ==> log[i] is DmaWrite && log[i]->DmaWrite_region == region
                && log[i]->DmaWrite_offset == offset + 128 * (i - at)
                && log[i]->DmaWrite_bytes.len() <= 128 && log[i]->DmaWrite_offset
                + log[i]->DmaWrite_bytes.len() <= region.length && (i == end - 2
                ==> log[i]->DmaWrite_offset + log[i]->DmaWrite_bytes.len() == region.length) && (i
                < end - 2 ==> log[i]->DmaWrite_bytes.len() == 128) && forall|k: int|
                0 <= k < log[i]->DmaWrite_bytes.len() ==> #[trigger] log[i]->DmaWrite_bytes[k] == 0,
    decreases region.length - offset,
{
    if offset < region.length {
        let count: nat = if region.length - offset < 128 {
            (region.length - offset) as nat
        } else {
            128
        };
        law_a_ring_is_zeroed_whole(region, offset + count, log, at + 1, end);
    }
}

/// Of the six BARs exactly those that the profile asks for are mapped, each at
/// least as long as asked for.
pub proof fn law_asked_bars_are_mapped<B: HermesPlatform>(
    profile: HermesTransportProfile,
    evidence: HermesProbeEvidence,
    domain: B::Domain,
    bar: nat,
    lease: LeaseView<B>,
    log: Seq<HermesEvent<B>>,
    at: int,
    held: LeaseView<B>,
    end: int,
)
    requires
        bar <= 6,
        lease.bars.len() == 6,
        crate::hermes_transport::bars_run(profile, evidence, domain, bar, lease, log, at) == Some(
            (Ok::<(), HermesFault>(()), held, end),
        ),
    ensures
        held.bars.len() == 6,
        held.domain == lease.domain,
        held.firmware == lease.firmware,
        forall|i: int|
            #![trigger held.bars[i]]
            bar <= i < 6 ==> if profile.required_bar_lengths[i] == 0 {
                held.bars[i] == lease.bars[i]
            } else {
                held.bars[i] is Some && held.bars[i]->0.length >= profile.required_bar_lengths[i]
                    && evidence.bar_lengths[i] >= profile.required_bar_lengths[i]
            },
        forall|i: int| 0 <= i < bar ==> (#[trigger] held.bars[i]) == lease.bars[i],
        end >= at,
        forall|k: int|
            #![trigger log[k]]
            at <= k < end ==> log[k] is MapBar && log[k]->MapBar_domain == domain && bar
                <= log[k]->MapBar_bar < 6 && log[k]->MapBar_minimum_length
                == profile.required_bar_lengths[log[k]->MapBar_bar as int],
    decreases 6 - bar,
{
    if bar < 6 {
        let required = profile.required_bar_lengths[bar as int];
        if required == 0 {
            law_asked_bars_are_mapped(
                profile,
                evidence,
                domain,
                bar + 1,
                lease,
                log,
                at,
                held,
                end,
            );
        } else {
            let window = log[at]->MapBar_reply->Ok_0;
            law_asked_bars_are_mapped(
                profile,
                evidence,
                domain,
                bar + 1,
                LeaseView { bars: lease.bars.update(bar as int, Some(window)), ..lease },
                log,
                at + 1,
                held,
                end,
            );
        }
    }
}

/// Firmware that is loaded was allocated at the image's length and the profile's
/// alignment, and holds the image from its first byte, published whole.
pub proof fn law_loaded_firmware_is_the_image<B: HermesPlatform>(
    identity: HermesPciIdentity,
    evidence: HermesProbeEvidence,
    profile: HermesTransportProfile,
    domain: B::Domain,
    image: crate::hermes_gsp::FirmwareImage,
    log: Seq<HermesEvent<B>>,
    at: int,
    region: Option<DmaRegion<B::Dma>>,
    seal: Option<crate::hermes_gsp::FirmwareSeal>,
    end: int,
)
    requires
        crate::hermes_transport::load_run(
            identity,
            evidence,
            profile,
            domain,
            Some(image),
            log,
            at,
        ) == Some((Ok::<(), HermesFault>(()), region, seal, end)),
    ensures
        end == at + 4,
        region is Some,
        seal is Some,
        seal->0.manifest_hash@ == image.manifest_hash@,
        seal->0.version == image.version,
        log[at] is Authenticate,
        log[at + 1] is Allocate,
        log[at + 1]->Allocate_length == image.bytes@.len() as usize,
        log[at + 1]->Allocate_alignment == profile.firmware_alignment as usize,
        log[at + 1]->Allocate_purpose == crate::hermes_gsp::DmaPurpose::Firmware,
        log[at + 2] is DmaWrite,
        log[at + 2]->DmaWrite_region == region->0,
        log[at + 2]->DmaWrite_offset == 0,
        log[at + 2]->DmaWrite_bytes == image.bytes@,
        log[at + 3] is Publish,
        log[at + 3]->Publish_region == region->0,
        log[at + 3]->Publish_offset == 0,
        log[at + 3]->Publish_length == image.bytes@.len() as usize,
        profile.firmware_minimum_bytes <= image.bytes@.len() <= profile.firmware_maximum_bytes,
        image.version != 0,
{
}

/// The two rings are allocated as long as their depth times their slot size,
/// commands first, and the personality's codec starts at the transport's epoch.
pub proof fn law_rings_are_as_long_as_their_slots<B: HermesPlatform>(
    profile: HermesTransportProfile,
    epoch: u32,
    domain: B::Domain,
    lease: LeaseView<B>,
    log: Seq<HermesEvent<B>>,
    at: int,
    held: LeaseView<B>,
    end: int,
)
    requires
        crate::hermes_transport::rings_run(profile, epoch, domain, lease, log, at) == Some(
            (Ok::<(), HermesFault>(()), held, end),
        ),
    ensures
        held.command_ring is Some,
        held.event_ring is Some,
        held.bars == lease.bars,
        held.firmware == lease.firmware,
        held.domain == lease.domain,
        log[at] is Allocate,
        log[at]->Allocate_length == (profile.command_depth * profile.command_slot_bytes) as usize,
        log[at]->Allocate_purpose == crate::hermes_gsp::DmaPurpose::CommandRing,
        log[at]->Allocate_reply == Ok::<_, HermesFault>(held.command_ring->0),
        held.command_ring->0.length >= (profile.command_depth
            * profile.command_slot_bytes) as usize,
        held.event_ring->0.length >= (profile.event_depth * profile.event_slot_bytes) as usize,
        log[end - 1] is Reset,
        log[end - 1]->Reset_epoch == epoch,
        log[end - 1]->Reset_profile == profile,
{
}

} // verus!
