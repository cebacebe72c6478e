//! A Hermes transport over its platform, from its first BAR to its last event.

use crate::gpu_abi::{GpuCompatibility, GpuCompatibilityProof, GpuDeviceEvidence};
use crate::hermes_abi::{
    HermesAdmissionCertificate, HermesAdmissionFault, HermesBootInstruction,
    HermesNormalizedCommand, HermesNormalizedEvent, HermesPciIdentity, HermesProbeEvidence,
    HermesServiceCurve, HermesTransportProfile, CommandShape, HERMES_BOOT_STAGE_FIRMWARE,
    HERMES_BOOT_STAGE_IGNITE, HERMES_BOOT_STAGE_NEGOTIATE, HERMES_BOOT_STAGE_QUEUES,
    HERMES_EVENT_ASYNC, HERMES_EVENT_BYTES, HERMES_EVENT_FAULT, HERMES_EVENT_REPLY,
    HERMES_MAX_NORMALIZED_PAYLOAD,
};
use crate::hermes_gsp::{
    earlier_deadline, map_admission_fault, ring_bytes, tick_reached, usize_to_u32,
    validate_boot_instruction, validate_dma_region, validate_firmware, validate_identity,
    validate_mmio_access, validate_profile, validate_queue_publication, word_u16, word_u32,
    word_u8, DmaPurpose, DmaRegion, FirmwareAuthority, FirmwareImage, FirmwareSeal, HermesCodec,
    HermesFault, HermesPlatform, HermesService, MmioWindow, PendingRequest, PersonalityRegistry,
    Runtime, RuntimeView, DMA_GRANULE, HERMES_BOOT_ASSERT32, HERMES_BOOT_COMMAND_QUEUE,
    HERMES_BOOT_DELAY, HERMES_BOOT_DOORBELL, HERMES_BOOT_END, HERMES_BOOT_EVENT_QUEUE,
    HERMES_BOOT_FENCE, HERMES_BOOT_FIRMWARE_ADDRESS, HERMES_BOOT_POLL32, HERMES_BOOT_RMW32,
    HERMES_BOOT_WRITE32, HERMES_OPCODE_NEGOTIATE, MAXIMUM_BOOT_STEPS, MAXIMUM_POLL_SAMPLES,
    MAXIMUM_WAIT_SPINS,
};
pub use crate::hermes_trace::{HermesEvent, HermesTrace, ImageShape};
use std::marker::PhantomData;
use vstd::prelude::*;

verus! {

broadcast use {
    crate::trace::lemma_continues_through,
    crate::hermes_trace::lemma_follows_itself,
    crate::hermes_trace::lemma_follows_continues,
    crate::hermes_trace::lemma_follows_through,
    crate::hermes_trace::lemma_with_continues,
    crate::hermes_trace::lemma_with_through,
    crate::hermes_trace::lemma_with_after,
    crate::hermes_trace::lemma_with_before,
    crate::hermes_trace::lemma_with_of,
    crate::hermes_trace::lemma_served_continues,
    crate::hermes_trace::lemma_served_through,
    crate::hermes_trace::lemma_served_after,
    crate::hermes_trace::lemma_served_before,
    crate::hermes_trace::lemma_served_after_with,
    crate::hermes_trace::lemma_served_of,
    crate::hermes_trace::lemma_served_of_with,
    crate::hermes_trace::lemma_vouched_continues,
    crate::hermes_trace::lemma_vouched_after,
    crate::hermes_trace::lemma_vouched_before,
    crate::hermes_trace::lemma_vouched_before_with,
    crate::hermes_trace::lemma_vouched_of,
};

/// The reply to the clock at a place of a transcript.
pub open spec fn now_at<B: HermesPlatform>(log: Seq<HermesEvent<B>>, at: int) -> Option<u64> {
    if 0 <= at < log.len() {
        match log[at] {
            HermesEvent::Now { tick } => Some(tick),
            _ => None,
        }
    } else {
        None
    }
}

pub open spec fn relaxed_at<B: HermesPlatform>(log: Seq<HermesEvent<B>>, at: int) -> bool {
    0 <= at < log.len() && log[at] is Relax
}

pub open spec fn fence_at<B: HermesPlatform>(log: Seq<HermesEvent<B>>, at: int) -> Option<
    (Result<(), HermesFault>, int),
> {
    if 0 <= at < log.len() {
        match log[at] {
            HermesEvent::Fence { reply } => Some((reply, at + 1)),
            _ => None,
        }
    } else {
        None
    }
}

/// What a transport holds of its platform.
pub struct HermesLease<B: HermesPlatform> {
    pub domain: Option<B::Domain>,
    pub bars: [Option<MmioWindow<B::Mmio>>; 6],
    pub firmware: Option<DmaRegion<B::Dma>>,
    pub command_ring: Option<DmaRegion<B::Dma>>,
    pub event_ring: Option<DmaRegion<B::Dma>>,
}

/// The read of a register.
pub open spec fn read_run<B: HermesPlatform>(
    lease: HermesLease<B>,
    bar: u8,
    offset: u32,
    log: Seq<HermesEvent<B>>,
    at: int,
) -> Option<(Result<u32, HermesFault>, int)> {
    match lease.window_of(bar) {
        None => Some((Err(HermesFault::BarUnavailable), at)),
        Some(window) => match validate_mmio_access(window, offset, 4) {
            Err(fault) => Some((Err(fault), at)),
            Ok(_) => if 0 <= at < log.len() {
                match log[at] {
                    HermesEvent::Read { window: asked, offset: place, reply } => if asked == window
                        && place == offset {
                        Some((reply, at + 1))
                    } else {
                        None
                    },
                    _ => None,
                }
            } else {
                None
            },
        },
    }
}

/// The write of a register.
pub open spec fn write_run<B: HermesPlatform>(
    lease: HermesLease<B>,
    bar: u8,
    offset: u32,
    value: u32,
    log: Seq<HermesEvent<B>>,
    at: int,
) -> Option<(Result<(), HermesFault>, int)> {
    match lease.window_of(bar) {
        None => Some((Err(HermesFault::BarUnavailable), at)),
        Some(window) => match validate_mmio_access(window, offset, 4) {
            Err(fault) => Some((Err(fault), at)),
            Ok(_) => if 0 <= at < log.len() {
                match log[at] {
                    HermesEvent::Write {
                        window: asked,
                        offset: place,
                        value: word,
                        reply,
                    } => if asked
                        == window && place == offset && word == value {
                        Some((reply, at + 1))
                    } else {
                        None
                    },
                    _ => None,
                }
            } else {
                None
            },
        },
    }
}

/// What three reads of one register agree on.
#[verifier::allow_in_spec]
pub fn consensus(first: u32, second: u32, third: u32) -> Result<u32, HermesFault>
    returns
        (if first == second || first == third {
            Ok(first)
        } else if second == third {
            Ok(second)
        } else {
            Err(HermesFault::UnstableMmio)
        }),
{
    if first == second || first == third {
        Ok(first)
    } else if second == third {
        Ok(second)
    } else {
        Err(HermesFault::UnstableMmio)
    }
}

/// Three reads of a register, and what two of them agree on.
pub open spec fn consensus_run<B: HermesPlatform>(
    lease: HermesLease<B>,
    bar: u8,
    offset: u32,
    log: Seq<HermesEvent<B>>,
    at: int,
) -> Option<(Result<u32, HermesFault>, int)> {
    match read_run(lease, bar, offset, log, at) {
        Some((Ok(first), second_at)) => match read_run(lease, bar, offset, log, second_at) {
            Some((Ok(second), third_at)) => match read_run(lease, bar, offset, log, third_at) {
                Some((Ok(third), next)) => Some((consensus(first, second, third), next)),
                other => other,
            },
            other => other,
        },
        other => other,
    }
}

/// A register polled until it shows a value, a fault, or the end of the patience.
pub open spec fn poll_run<B: HermesPlatform>(
    fault_mask: u32,
    lease: HermesLease<B>,
    bar: u8,
    offset: u32,
    mask: u32,
    expected: u32,
    deadline_tick: u64,
    samples: nat,
    log: Seq<HermesEvent<B>>,
    at: int,
) -> Option<(Result<(), HermesFault>, int)>
    decreases MAXIMUM_POLL_SAMPLES - samples,
{
    match consensus_run(lease, bar, offset, log, at) {
        None => None,
        Some((Err(fault), next)) => Some((Err(fault), next)),
        Some((Ok(value), next)) => if value & fault_mask != 0 {
            Some((Err(HermesFault::DeviceFault), next))
        } else if value & mask == expected & mask {
            Some((Ok(()), next))
        } else {
            match now_at(log, next) {
                None => None,
                Some(now) => if tick_reached(now, deadline_tick) {
                    Some((Err(HermesFault::DeadlineExpired), next + 1))
                } else if samples + 1 >= MAXIMUM_POLL_SAMPLES {
                    Some((Err(HermesFault::BootFuelExhausted), next + 1))
                } else if !relaxed_at(log, next + 1) {
                    None
                } else {
                    poll_run(
                        fault_mask,
                        lease,
                        bar,
                        offset,
                        mask,
                        expected,
                        deadline_tick,
                        samples + 1,
                        log,
                        next + 2,
                    )
                },
            }
        },
    }
}

/// A wait for a tick: where it ends, and whether the tick came.
pub open spec fn wait_run<B: HermesPlatform>(
    deadline_tick: u64,
    spins: nat,
    log: Seq<HermesEvent<B>>,
    at: int,
) -> Option<(bool, int)>
    decreases spins,
{
    if spins == 0 {
        Some((false, at))
    } else {
        match now_at(log, at) {
            None => None,
            Some(now) => if tick_reached(now, deadline_tick) {
                Some((true, at + 1))
            } else if !relaxed_at(log, at + 1) {
                None
            } else {
                wait_run(deadline_tick, (spins - 1) as nat, log, at + 2)
            },
        }
    }
}

impl<B: HermesPlatform> HermesLease<B> {
    pub open spec fn window_of(self, bar: u8) -> Option<MmioWindow<B::Mmio>> {
        if bar < 6 {
            self.bars[bar as int]
        } else {
            None
        }
    }

    /// A lease of nothing.
    pub open spec fn holds_nothing(self) -> bool {
        &&& self.domain is None
        &&& forall|i: int| 0 <= i < 6 ==> #[trigger] self.bars[i] is None
        &&& self.firmware is None
        &&& self.command_ring is None
        &&& self.event_ring is None
    }

    pub fn new() -> (lease: Self)
        ensures
            lease.holds_nothing(),
    {
        HermesLease {
            domain: None,
            bars: [None, None, None, None, None, None],
            firmware: None,
            command_ring: None,
            event_ring: None,
        }
    }

    pub fn bar(&self, index: u8) -> (result: Result<MmioWindow<B::Mmio>, HermesFault>)
        ensures
            result == (match self.window_of(index) {
                None => Err(HermesFault::BarUnavailable),
                Some(window) => Ok(window),
            }),
    {
        if index >= 6 {
            return Err(HermesFault::BarUnavailable);
        }
        match self.bars[index as usize] {
            None => Err(HermesFault::BarUnavailable),
            Some(window) => Ok(window),
        }
    }

    pub fn firmware(&self) -> (result: Result<DmaRegion<B::Dma>, HermesFault>)
        ensures
            result == (match self.firmware {
                None => Err(HermesFault::FirmwareMissing),
                Some(region) => Ok(region),
            }),
    {
        match self.firmware {
            None => Err(HermesFault::FirmwareMissing),
            Some(region) => Ok(region),
        }
    }

    pub fn command_ring(&self) -> (result: Result<DmaRegion<B::Dma>, HermesFault>)
        ensures
            result == (match self.command_ring {
                None => Err(HermesFault::DmaAccess),
                Some(region) => Ok(region),
            }),
    {
        match self.command_ring {
            None => Err(HermesFault::DmaAccess),
            Some(region) => Ok(region),
        }
    }

    pub fn event_ring(&self) -> (result: Result<DmaRegion<B::Dma>, HermesFault>)
        ensures
            result == (match self.event_ring {
                None => Err(HermesFault::DmaAccess),
                Some(region) => Ok(region),
            }),
    {
        match self.event_ring {
            None => Err(HermesFault::DmaAccess),
            Some(region) => Ok(region),
        }
    }

    pub fn read32(&self, bar: u8, offset: u32, trace: &mut HermesTrace<B>) -> (result: Result<
        u32,
        HermesFault,
    >)
        ensures
            final(trace).follows(*old(trace)),
            forall|log: Seq<HermesEvent<B>>| #[trigger]
                crate::trace::continues(log, final(trace).log()) ==> read_run(
                    *self,
                    bar,
                    offset,
                    log,
                    old(trace).log().len() as int,
                ) == Some((result, final(trace).log().len() as int)),
    {
        match self.bar(bar) {
            Err(fault) => Err(fault),
            Ok(window) => match validate_mmio_access(window, offset, 4) {
                Err(fault) => Err(fault),
                Ok(_) => trace.read(window, offset),
            },
        }
    }

    pub fn write32(&self, bar: u8, offset: u32, value: u32, trace: &mut HermesTrace<B>) -> (result:
        Result<(), HermesFault>)
        ensures
            final(trace).follows(*old(trace)),
            forall|log: Seq<HermesEvent<B>>| #[trigger]
                crate::trace::continues(log, final(trace).log()) ==> write_run(
                    *self,
                    bar,
                    offset,
                    value,
                    log,
                    old(trace).log().len() as int,
                ) == Some((result, final(trace).log().len() as int)),
    {
        match self.bar(bar) {
            Err(fault) => Err(fault),
            Ok(window) => match validate_mmio_access(window, offset, 4) {
                Err(fault) => Err(fault),
                Ok(_) => trace.write(window, offset, value),
            },
        }
    }

    pub fn read_consensus32(&self, bar: u8, offset: u32, trace: &mut HermesTrace<B>) -> (result:
        Result<u32, HermesFault>)
        ensures
            final(trace).follows(*old(trace)),
            forall|log: Seq<HermesEvent<B>>| #[trigger]
                crate::trace::continues(log, final(trace).log()) ==> consensus_run(
                    *self,
                    bar,
                    offset,
                    log,
                    old(trace).log().len() as int,
                ) == Some((result, final(trace).log().len() as int)),
    {
        let first: u32 = match self.read32(bar, offset, trace) {
            Err(fault) => {
                return Err(fault);
            },
            Ok(value) => value,
        };
        let second: u32 = match self.read32(bar, offset, trace) {
            Err(fault) => {
                return Err(fault);
            },
            Ok(value) => value,
        };
        let third: u32 = match self.read32(bar, offset, trace) {
            Err(fault) => {
                return Err(fault);
            },
            Ok(value) => value,
        };
        consensus(first, second, third)
    }

    pub fn poll32(
        &self,
        fault_mask: u32,
        bar: u8,
        offset: u32,
        mask: u32,
        expected: u32,
        deadline_tick: u64,
        trace: &mut HermesTrace<B>,
    ) -> (result: Result<(), HermesFault>)
        ensures
            final(trace).follows(*old(trace)),
            forall|log: Seq<HermesEvent<B>>| #[trigger]
                crate::trace::continues(log, final(trace).log()) ==> poll_run(
                    fault_mask,
                    *self,
                    bar,
                    offset,
                    mask,
                    expected,
                    deadline_tick,
                    0,
                    log,
                    old(trace).log().len() as int,
                ) == Some((result, final(trace).log().len() as int)),
    {
        let ghost start = trace.log().len() as int;
        let mut samples: usize = 0;
        loop
            invariant
                samples < MAXIMUM_POLL_SAMPLES,
                start == old(trace).log().len(),
                trace.follows(*old(trace)),
                forall|log: Seq<HermesEvent<B>>| #[trigger]
                    crate::trace::continues(log, trace.log()) ==> poll_run(
                        fault_mask,
                        *self,
                        bar,
                        offset,
                        mask,
                        expected,
                        deadline_tick,
                        0,
                        log,
                        start,
                    ) == poll_run(
                        fault_mask,
                        *self,
                        bar,
                        offset,
                        mask,
                        expected,
                        deadline_tick,
                        samples as nat,
                        log,
                        trace.log().len() as int,
                    ),
            decreases MAXIMUM_POLL_SAMPLES - samples,
        {
            let value: u32 = match self.read_consensus32(bar, offset, trace) {
                Err(fault) => {
                    return Err(fault);
                },
                Ok(value) => value,
            };
            if value & fault_mask != 0 {
                return Err(HermesFault::DeviceFault);
            }
            if value & mask == expected & mask {
                return Ok(());
            }
            let ghost head = trace.log();
            let now: u64 = trace.now();
            let ghost clocked = trace.log();
            assert(clocked[head.len() as int] == HermesEvent::<B>::Now { tick: now });
            if tick_reached(now, deadline_tick) {
                return Err(HermesFault::DeadlineExpired);
            }
            samples = samples + 1;
            if samples >= MAXIMUM_POLL_SAMPLES {
                return Err(HermesFault::BootFuelExhausted);
            }
            trace.relax();
            assert(trace.log()[clocked.len() as int] is Relax);
        }
    }
}

/// Waits for a tick.
pub fn wait_until<B: HermesPlatform>(deadline_tick: u64, trace: &mut HermesTrace<B>) -> (reached:
    bool)
    ensures
        final(trace).follows(*old(trace)),
        forall|log: Seq<HermesEvent<B>>| #[trigger]
            crate::trace::continues(log, final(trace).log()) ==> wait_run(
                deadline_tick,
                MAXIMUM_WAIT_SPINS as nat,
                log,
                old(trace).log().len() as int,
            ) == Some((reached, final(trace).log().len() as int)),
{
    let ghost start = trace.log().len() as int;
    let mut spins: u64 = MAXIMUM_WAIT_SPINS;
    while spins > 0
        invariant
            start == old(trace).log().len(),
            trace.follows(*old(trace)),
            forall|log: Seq<HermesEvent<B>>| #[trigger]
                crate::trace::continues(log, trace.log()) ==> wait_run(
                    deadline_tick,
                    MAXIMUM_WAIT_SPINS as nat,
                    log,
                    start,
                ) == wait_run(deadline_tick, spins as nat, log, trace.log().len() as int),
        decreases spins,
    {
        let ghost head = trace.log();
        let now: u64 = trace.now();
        let ghost clocked = trace.log();
        assert(clocked[head.len() as int] == HermesEvent::<B>::Now { tick: now });
        if tick_reached(now, deadline_tick) {
            return true;
        }
        trace.relax();
        assert(trace.log()[clocked.len() as int] is Relax);
        spins = spins - 1;
    }
    false
}

/// A write after what went well.
pub open spec fn then_write<B: HermesPlatform>(
    earlier: Option<(Result<(), HermesFault>, int)>,
    lease: HermesLease<B>,
    bar: u8,
    offset: u32,
    value: u32,
    log: Seq<HermesEvent<B>>,
) -> Option<(Result<(), HermesFault>, int)> {
    match earlier {
        Some((Ok(_), next)) => write_run(lease, bar, offset, value, log, next),
        other => other,
    }
}

/// A fence after what went well.
pub open spec fn then_fence<B: HermesPlatform>(
    earlier: Option<(Result<(), HermesFault>, int)>,
    log: Seq<HermesEvent<B>>,
) -> Option<(Result<(), HermesFault>, int)> {
    match earlier {
        Some((Ok(_), next)) => fence_at(log, next),
        other => other,
    }
}

/// The low word of an address.
#[verifier::allow_in_spec]
pub fn low_word(address: u64) -> u32
    returns
        (#[verifier::truncate] (address as u32)),
{
    #[verifier::truncate]
    (address as u32)
}

/// The high word of an address.
#[verifier::allow_in_spec]
pub fn high_word(address: u64) -> u32
    returns
        (#[verifier::truncate] ((address >> 32) as u32)),
{
    #[verifier::truncate]
    ((address >> 32) as u32)
}

/// The publication of a queue: its address, depth and slot size, and a fence.
pub open spec fn publish_run<B: HermesPlatform>(
    lease: HermesLease<B>,
    instruction: HermesBootInstruction,
    ring: DmaRegion<B::Dma>,
    expected_depth: u16,
    expected_slot: u16,
    log: Seq<HermesEvent<B>>,
    at: int,
) -> Option<(Result<(), HermesFault>, int)> {
    let words = instruction.words;
    match (
        word_u8(words[0]),
        word_u32(words[1]),
        word_u32(words[2]),
        word_u32(words[3]),
        word_u32(words[4]),
        word_u16(words[5]),
        word_u16(words[6]),
    ) {
        (Ok(bar), Ok(low), Ok(high), Ok(depth_at), Ok(slot_at), Ok(depth), Ok(slot)) => {
            match crate::hermes_gsp::publication_of(
                ring.length,
                expected_depth,
                expected_slot,
                depth,
                slot,
            ) {
                Err(fault) => Some((Err(fault), at)),
                Ok(_) => {
                    let first = write_run(
                        lease,
                        bar,
                        low,
                        low_word(ring.device_address),
                        log,
                        at,
                    );
                    let second = then_write(
                        first,
                        lease,
                        bar,
                        high,
                        high_word(ring.device_address),
                        log,
                    );
                    let third = then_write(second, lease, bar, depth_at, depth as u32, log);
                    let fourth = then_write(third, lease, bar, slot_at, slot as u32, log);
                    then_fence(fourth, log)
                },
            }
        },
        _ => Some((Err(HermesFault::BootInstructionRejected), at)),
    }
}

pub open spec fn write_step<B: HermesPlatform>(
    lease: HermesLease<B>,
    instruction: HermesBootInstruction,
    log: Seq<HermesEvent<B>>,
    at: int,
) -> Option<(Result<(), HermesFault>, int)> {
    let words = instruction.words;
    match (word_u8(words[0]), word_u32(words[1]), word_u32(words[2])) {
        (Ok(bar), Ok(offset), Ok(value)) => write_run(lease, bar, offset, value, log, at),
        _ => Some((Err(HermesFault::BootInstructionRejected), at)),
    }
}

pub open spec fn modify_step<B: HermesPlatform>(
    lease: HermesLease<B>,
    instruction: HermesBootInstruction,
    log: Seq<HermesEvent<B>>,
    at: int,
) -> Option<(Result<(), HermesFault>, int)> {
    let words = instruction.words;
    match (word_u8(words[0]), word_u32(words[1]), word_u32(words[2]), word_u32(words[3])) {
        (Ok(bar), Ok(offset), Ok(clear), Ok(set)) => match consensus_run(
            lease,
            bar,
            offset,
            log,
            at,
        ) {
            None => None,
            Some((Err(fault), next)) => Some((Err(fault), next)),
            Some((Ok(current), next)) => write_run(
                lease,
                bar,
                offset,
                (current & !clear) | set,
                log,
                next,
            ),
        },
        _ => Some((Err(HermesFault::BootInstructionRejected), at)),
    }
}

pub open spec fn poll_step<B: HermesPlatform>(
    fault_mask: u32,
    lease: HermesLease<B>,
    instruction: HermesBootInstruction,
    deadline_tick: u64,
    log: Seq<HermesEvent<B>>,
    at: int,
) -> Option<(Result<(), HermesFault>, int)> {
    let words = instruction.words;
    match (word_u8(words[0]), word_u32(words[1]), word_u32(words[2]), word_u32(words[3])) {
        (Ok(bar), Ok(offset), Ok(mask), Ok(expected)) => match now_at(log, at) {
            None => None,
            Some(now) => if now + words[4] > u64::MAX {
                Some((Err(HermesFault::ArithmeticOverflow), at + 1))
            } else {
                poll_run(
                    fault_mask,
                    lease,
                    bar,
                    offset,
                    mask,
                    expected,
                    earlier_deadline((now + words[4]) as u64, deadline_tick),
                    0,
                    log,
                    at + 1,
                )
            },
        },
        _ => Some((Err(HermesFault::BootInstructionRejected), at)),
    }
}

pub open spec fn delay_step<B: HermesPlatform>(
    instruction: HermesBootInstruction,
    deadline_tick: u64,
    log: Seq<HermesEvent<B>>,
    at: int,
) -> Option<(Result<(), HermesFault>, int)> {
    let delay = instruction.words[0];
    match now_at(log, at) {
        None => None,
        Some(now) => if now + delay > u64::MAX {
            Some((Err(HermesFault::ArithmeticOverflow), at + 1))
        } else {
            let effective = earlier_deadline((now + delay) as u64, deadline_tick);
            match wait_run(effective, MAXIMUM_WAIT_SPINS as nat, log, at + 1) {
                None => None,
                Some((false, next)) => Some((Err(HermesFault::BootFuelExhausted), next)),
                Some((true, next)) => if effective != deadline_tick {
                    Some((Ok(()), next))
                } else {
                    match now_at(log, next) {
                        None => None,
                        Some(later) => if tick_reached(later, deadline_tick) && delay != 0 {
                            Some((Err(HermesFault::DeadlineExpired), next + 1))
                        } else {
                            Some((Ok(()), next + 1))
                        },
                    }
                },
            }
        },
    }
}

pub open spec fn firmware_step<B: HermesPlatform>(
    lease: HermesLease<B>,
    instruction: HermesBootInstruction,
    log: Seq<HermesEvent<B>>,
    at: int,
) -> Option<(Result<(), HermesFault>, int)> {
    let words = instruction.words;
    match lease.firmware {
        None => Some((Err(HermesFault::FirmwareMissing), at)),
        Some(region) => match (
            word_u8(words[0]),
            word_u32(words[1]),
            word_u32(words[2]),
            word_u32(words[3]),
        ) {
            (Ok(bar), Ok(low), Ok(high), Ok(length_at)) => {
                let first = write_run(
                    lease,
                    bar,
                    low,
                    low_word(region.device_address),
                    log,
                    at,
                );
                let second = then_write(
                    first,
                    lease,
                    bar,
                    high,
                    high_word(region.device_address),
                    log,
                );
                match second {
                    Some((Ok(_), next)) => match usize_to_u32(region.length) {
                        Err(fault) => Some((Err(fault), next)),
                        Ok(length) => then_fence(
                            write_run(lease, bar, length_at, length, log, next),
                            log,
                        ),
                    },
                    other => other,
                }
            },
            _ => Some((Err(HermesFault::BootInstructionRejected), at)),
        },
    }
}

pub open spec fn assert_step<B: HermesPlatform>(
    lease: HermesLease<B>,
    instruction: HermesBootInstruction,
    log: Seq<HermesEvent<B>>,
    at: int,
) -> Option<(Result<(), HermesFault>, int)> {
    let words = instruction.words;
    match (word_u8(words[0]), word_u32(words[1]), word_u32(words[2]), word_u32(words[3])) {
        (Ok(bar), Ok(offset), Ok(mask), Ok(expected)) => match consensus_run(
            lease,
            bar,
            offset,
            log,
            at,
        ) {
            None => None,
            Some((Err(fault), next)) => Some((Err(fault), next)),
            Some((Ok(value), next)) => if value & mask != expected & mask {
                Some((Err(HermesFault::BootInstructionRejected), next))
            } else {
                Some((Ok(()), next))
            },
        },
        _ => Some((Err(HermesFault::BootInstructionRejected), at)),
    }
}

/// One boot instruction.
pub open spec fn instruction_run<B: HermesPlatform>(
    profile: HermesTransportProfile,
    lease: HermesLease<B>,
    instruction: HermesBootInstruction,
    deadline_tick: u64,
    log: Seq<HermesEvent<B>>,
    at: int,
) -> Option<(Result<(), HermesFault>, int)> {
    let opcode = instruction.opcode;
    if opcode == HERMES_BOOT_WRITE32 {
        write_step(lease, instruction, log, at)
    } else if opcode == HERMES_BOOT_RMW32 {
        modify_step(lease, instruction, log, at)
    } else if opcode == HERMES_BOOT_POLL32 {
        poll_step(profile.fault_mask, lease, instruction, deadline_tick, log, at)
    } else if opcode == HERMES_BOOT_DELAY {
        delay_step(instruction, deadline_tick, log, at)
    } else if opcode == HERMES_BOOT_FIRMWARE_ADDRESS {
        firmware_step(lease, instruction, log, at)
    } else if opcode == HERMES_BOOT_COMMAND_QUEUE {
        match lease.command_ring {
            None => Some((Err(HermesFault::DmaAccess), at)),
            Some(ring) => publish_run(
                lease,
                instruction,
                ring,
                profile.command_depth,
                profile.command_slot_bytes,
                log,
                at,
            ),
        }
    } else if opcode == HERMES_BOOT_EVENT_QUEUE {
        match lease.event_ring {
            None => Some((Err(HermesFault::DmaAccess), at)),
            Some(ring) => publish_run(
                lease,
                instruction,
                ring,
                profile.event_depth,
                profile.event_slot_bytes,
                log,
                at,
            ),
        }
    } else if opcode == HERMES_BOOT_DOORBELL {
        then_fence(write_step(lease, instruction, log, at), log)
    } else if opcode == HERMES_BOOT_FENCE {
        fence_at(log, at)
    } else if opcode == HERMES_BOOT_ASSERT32 {
        assert_step(lease, instruction, log, at)
    } else {
        Some((Err(HermesFault::BootInstructionRejected), at))
    }
}

/// The steps of a boot stage from one on.
pub open spec fn steps_run<B: HermesPlatform>(
    identity: HermesPciIdentity,
    evidence: HermesProbeEvidence,
    profile: HermesTransportProfile,
    lease: HermesLease<B>,
    stage: u32,
    deadline_tick: u64,
    index: nat,
    maximum: nat,
    log: Seq<HermesEvent<B>>,
    at: int,
) -> Option<(Result<(), HermesFault>, int)>
    decreases maximum - index,
{
    if index >= maximum {
        Some((Err(HermesFault::BootFuelExhausted), at))
    } else {
        match now_at(log, at) {
            None => None,
            Some(now) => if tick_reached(now, deadline_tick) {
                Some((Err(HermesFault::DeadlineExpired), at + 1))
            } else {
                match boot_at(identity, evidence, stage, index, log, at + 1) {
                    None => None,
                    Some(Err(fault)) => Some((Err(fault), at + 2)),
                    Some(Ok(None)) => Some((Ok(()), at + 2)),
                    Some(Ok(Some(instruction))) => match validate_boot_instruction(
                        stage,
                        &instruction,
                    ) {
                        Err(fault) => Some((Err(fault), at + 2)),
                        Ok(_) => if instruction.opcode == HERMES_BOOT_END {
                            Some((Ok(()), at + 2))
                        } else {
                            match instruction_run(
                                profile,
                                lease,
                                instruction,
                                deadline_tick,
                                log,
                                at + 2,
                            ) {
                                Some((Ok(_), next)) => steps_run(
                                    identity,
                                    evidence,
                                    profile,
                                    lease,
                                    stage,
                                    deadline_tick,
                                    index + 1,
                                    maximum,
                                    log,
                                    next,
                                ),
                                other => other,
                            }
                        },
                    },
                }
            },
        }
    }
}

/// The reply to the question for a boot instruction.
pub open spec fn boot_at<B: HermesPlatform>(
    identity: HermesPciIdentity,
    evidence: HermesProbeEvidence,
    stage: u32,
    index: nat,
    log: Seq<HermesEvent<B>>,
    at: int,
) -> Option<Result<Option<HermesBootInstruction>, HermesFault>> {
    if 0 <= at < log.len() {
        match log[at] {
            HermesEvent::Boot {
                identity: of,
                evidence: measured,
                stage: asked,
                index: step,
                reply,
            } => if of == identity && measured == evidence && asked == stage && step == index {
                Some(reply)
            } else {
                None
            },
            _ => None,
        }
    } else {
        None
    }
}

/// A whole boot stage.
pub open spec fn stage_run<B: HermesPlatform>(
    identity: HermesPciIdentity,
    evidence: HermesProbeEvidence,
    profile: HermesTransportProfile,
    lease: HermesLease<B>,
    stage: u32,
    deadline_tick: u64,
    log: Seq<HermesEvent<B>>,
    at: int,
) -> Option<(Result<(), HermesFault>, int)> {
    let maximum = if profile.maximum_boot_steps <= MAXIMUM_BOOT_STEPS {
        profile.maximum_boot_steps as nat
    } else {
        MAXIMUM_BOOT_STEPS as nat
    };
    steps_run(identity, evidence, profile, lease, stage, deadline_tick, 0, maximum, log, at)
}

impl<B: HermesPlatform> HermesLease<B> {
    pub fn publish_queue(
        &self,
        instruction: &HermesBootInstruction,
        ring: DmaRegion<B::Dma>,
        expected_depth: u16,
        expected_slot: u16,
        trace: &mut HermesTrace<B>,
    ) -> (result: Result<(), HermesFault>)
        ensures
            final(trace).follows(*old(trace)),
            forall|log: Seq<HermesEvent<B>>| #[trigger]
                crate::trace::continues(log, final(trace).log()) ==> publish_run(
                    *self,
                    *instruction,
                    ring,
                    expected_depth,
                    expected_slot,
                    log,
                    old(trace).log().len() as int,
                ) == Some((result, final(trace).log().len() as int)),
    {
        let (bar, low, high, depth_at, slot_at, depth, slot): (
            u8,
            u32,
            u32,
            u32,
            u32,
            u16,
            u16,
        ) = match (
            word_u8(instruction.words[0]),
            word_u32(instruction.words[1]),
            word_u32(instruction.words[2]),
            word_u32(instruction.words[3]),
            word_u32(instruction.words[4]),
            word_u16(instruction.words[5]),
            word_u16(instruction.words[6]),
        ) {
            (Ok(bar), Ok(low), Ok(high), Ok(depth_at), Ok(slot_at), Ok(depth), Ok(slot)) => (
                bar,
                low,
                high,
                depth_at,
                slot_at,
                depth,
                slot,
            ),
            _ => {
                return Err(HermesFault::BootInstructionRejected);
            },
        };
        match validate_queue_publication(
            ring.length,
            expected_depth,
            expected_slot,
            depth,
            slot,
        ) {
            Err(fault) => {
                return Err(fault);
            },
            Ok(_) => {},
        }
        match self.write32(bar, low, low_word(ring.device_address), trace) {
            Err(fault) => {
                return Err(fault);
            },
            Ok(_) => {},
        }
        match self.write32(bar, high, high_word(ring.device_address), trace) {
            Err(fault) => {
                return Err(fault);
            },
            Ok(_) => {},
        }
        match self.write32(bar, depth_at, depth as u32, trace) {
            Err(fault) => {
                return Err(fault);
            },
            Ok(_) => {},
        }
        match self.write32(bar, slot_at, slot as u32, trace) {
            Err(fault) => {
                return Err(fault);
            },
            Ok(_) => {},
        }
        trace.fence()
    }

    fn write_instruction(
        &self,
        instruction: &HermesBootInstruction,
        trace: &mut HermesTrace<B>,
    ) -> (result: Result<(), HermesFault>)
        ensures
            final(trace).follows(*old(trace)),
            forall|log: Seq<HermesEvent<B>>| #[trigger]
                crate::trace::continues(log, final(trace).log()) ==> write_step(
                    *self,
                    *instruction,
                    log,
                    old(trace).log().len() as int,
                ) == Some((result, final(trace).log().len() as int)),
    {
        match (
            word_u8(instruction.words[0]),
            word_u32(instruction.words[1]),
            word_u32(instruction.words[2]),
        ) {
            (Ok(bar), Ok(offset), Ok(value)) => self.write32(bar, offset, value, trace),
            _ => Err(HermesFault::BootInstructionRejected),
        }
    }

    fn modify_instruction(
        &self,
        instruction: &HermesBootInstruction,
        trace: &mut HermesTrace<B>,
    ) -> (result: Result<(), HermesFault>)
        ensures
            final(trace).follows(*old(trace)),
            forall|log: Seq<HermesEvent<B>>| #[trigger]
                crate::trace::continues(log, final(trace).log()) ==> modify_step(
                    *self,
                    *instruction,
                    log,
                    old(trace).log().len() as int,
                ) == Some((result, final(trace).log().len() as int)),
    {
        match (
            word_u8(instruction.words[0]),
            word_u32(instruction.words[1]),
            word_u32(instruction.words[2]),
            word_u32(instruction.words[3]),
        ) {
            (Ok(bar), Ok(offset), Ok(clear), Ok(set)) => match self.read_consensus32(
                bar,
                offset,
                trace,
            ) {
                Err(fault) => Err(fault),
                Ok(current) => self.write32(bar, offset, (current & !clear) | set, trace),
            },
            _ => Err(HermesFault::BootInstructionRejected),
        }
    }

    fn poll_instruction(
        &self,
        fault_mask: u32,
        instruction: &HermesBootInstruction,
        deadline_tick: u64,
        trace: &mut HermesTrace<B>,
    ) -> (result: Result<(), HermesFault>)
        ensures
            final(trace).follows(*old(trace)),
            forall|log: Seq<HermesEvent<B>>| #[trigger]
                crate::trace::continues(log, final(trace).log()) ==> poll_step(
                    fault_mask,
                    *self,
                    *instruction,
                    deadline_tick,
                    log,
                    old(trace).log().len() as int,
                ) == Some((result, final(trace).log().len() as int)),
    {
        match (
            word_u8(instruction.words[0]),
            word_u32(instruction.words[1]),
            word_u32(instruction.words[2]),
            word_u32(instruction.words[3]),
        ) {
            (Ok(bar), Ok(offset), Ok(mask), Ok(expected)) => {
                let now: u64 = trace.now();
                assert(trace.log()[old(trace).log().len() as int] == HermesEvent::<B>::Now {
                    tick: now,
                });
                match now.checked_add(instruction.words[4]) {
                    None => Err(HermesFault::ArithmeticOverflow),
                    Some(local_deadline) => self.poll32(
                        fault_mask,
                        bar,
                        offset,
                        mask,
                        expected,
                        earlier_deadline(local_deadline, deadline_tick),
                        trace,
                    ),
                }
            },
            _ => Err(HermesFault::BootInstructionRejected),
        }
    }

    fn firmware_instruction(
        &self,
        instruction: &HermesBootInstruction,
        trace: &mut HermesTrace<B>,
    ) -> (result: Result<(), HermesFault>)
        ensures
            final(trace).follows(*old(trace)),
            forall|log: Seq<HermesEvent<B>>| #[trigger]
                crate::trace::continues(log, final(trace).log()) ==> firmware_step(
                    *self,
                    *instruction,
                    log,
                    old(trace).log().len() as int,
                ) == Some((result, final(trace).log().len() as int)),
    {
        let region = match self.firmware() {
            Err(fault) => {
                return Err(fault);
            },
            Ok(region) => region,
        };
        match (
            word_u8(instruction.words[0]),
            word_u32(instruction.words[1]),
            word_u32(instruction.words[2]),
            word_u32(instruction.words[3]),
        ) {
            (Ok(bar), Ok(low), Ok(high), Ok(length_at)) => {
                match self.write32(bar, low, low_word(region.device_address), trace) {
                    Err(fault) => {
                        return Err(fault);
                    },
                    Ok(_) => {},
                }
                match self.write32(bar, high, high_word(region.device_address), trace) {
                    Err(fault) => {
                        return Err(fault);
                    },
                    Ok(_) => {},
                }
                match usize_to_u32(region.length) {
                    Err(fault) => Err(fault),
                    Ok(length) => {
                        match self.write32(bar, length_at, length, trace) {
                            Err(fault) => Err(fault),
                            Ok(_) => trace.fence(),
                        }
                    },
                }
            },
            _ => Err(HermesFault::BootInstructionRejected),
        }
    }

    fn assert_instruction(
        &self,
        instruction: &HermesBootInstruction,
        trace: &mut HermesTrace<B>,
    ) -> (result: Result<(), HermesFault>)
        ensures
            final(trace).follows(*old(trace)),
            forall|log: Seq<HermesEvent<B>>| #[trigger]
                crate::trace::continues(log, final(trace).log()) ==> assert_step(
                    *self,
                    *instruction,
                    log,
                    old(trace).log().len() as int,
                ) == Some((result, final(trace).log().len() as int)),
    {
        match (
            word_u8(instruction.words[0]),
            word_u32(instruction.words[1]),
            word_u32(instruction.words[2]),
            word_u32(instruction.words[3]),
        ) {
            (Ok(bar), Ok(offset), Ok(mask), Ok(expected)) => match self.read_consensus32(
                bar,
                offset,
                trace,
            ) {
                Err(fault) => Err(fault),
                Ok(value) => if value & mask != expected & mask {
                    Err(HermesFault::BootInstructionRejected)
                } else {
                    Ok(())
                },
            },
            _ => Err(HermesFault::BootInstructionRejected),
        }
    }

    pub fn execute_instruction(
        &self,
        profile: &HermesTransportProfile,
        instruction: &HermesBootInstruction,
        deadline_tick: u64,
        trace: &mut HermesTrace<B>,
    ) -> (result: Result<(), HermesFault>)
        ensures
            final(trace).follows(*old(trace)),
            forall|log: Seq<HermesEvent<B>>| #[trigger]
                crate::trace::continues(log, final(trace).log()) ==> instruction_run(
                    *profile,
                    *self,
                    *instruction,
                    deadline_tick,
                    log,
                    old(trace).log().len() as int,
                ) == Some((result, final(trace).log().len() as int)),
    {
        let opcode: u32 = instruction.opcode;
        if opcode == HERMES_BOOT_WRITE32 {
            self.write_instruction(instruction, trace)
        } else if opcode == HERMES_BOOT_RMW32 {
            self.modify_instruction(instruction, trace)
        } else if opcode == HERMES_BOOT_POLL32 {
            self.poll_instruction(profile.fault_mask, instruction, deadline_tick, trace)
        } else if opcode == HERMES_BOOT_DELAY {
            delay_instruction(instruction, deadline_tick, trace)
        } else if opcode == HERMES_BOOT_FIRMWARE_ADDRESS {
            self.firmware_instruction(instruction, trace)
        } else if opcode == HERMES_BOOT_COMMAND_QUEUE {
            match self.command_ring() {
                Err(fault) => Err(fault),
                Ok(ring) => self.publish_queue(
                    instruction,
                    ring,
                    profile.command_depth,
                    profile.command_slot_bytes,
                    trace,
                ),
            }
        } else if opcode == HERMES_BOOT_EVENT_QUEUE {
            match self.event_ring() {
                Err(fault) => Err(fault),
                Ok(ring) => self.publish_queue(
                    instruction,
                    ring,
                    profile.event_depth,
                    profile.event_slot_bytes,
                    trace,
                ),
            }
        } else if opcode == HERMES_BOOT_DOORBELL {
            match self.write_instruction(instruction, trace) {
                Err(fault) => Err(fault),
                Ok(_) => trace.fence(),
            }
        } else if opcode == HERMES_BOOT_FENCE {
            trace.fence()
        } else if opcode == HERMES_BOOT_ASSERT32 {
            self.assert_instruction(instruction, trace)
        } else {
            Err(HermesFault::BootInstructionRejected)
        }
    }

    pub fn execute_stage<C: HermesCodec>(
        &self,
        codec: &C,
        identity: &HermesPciIdentity,
        evidence: &HermesProbeEvidence,
        profile: &HermesTransportProfile,
        stage: u32,
        deadline_tick: u64,
        trace: &mut HermesTrace<B>,
    ) -> (result: Result<(), HermesFault>)
        ensures
            final(trace).follows_with(*old(trace), *codec),
            forall|log: Seq<HermesEvent<B>>| #[trigger]
                crate::trace::continues(log, final(trace).log()) ==> stage_run(
                    *identity,
                    *evidence,
                    *profile,
                    *self,
                    stage,
                    deadline_tick,
                    log,
                    old(trace).log().len() as int,
                ) == Some((result, final(trace).log().len() as int)),
    {
        let ghost start = trace.log().len() as int;
        let maximum: u32 = if profile.maximum_boot_steps as usize <= MAXIMUM_BOOT_STEPS {
            profile.maximum_boot_steps
        } else {
            MAXIMUM_BOOT_STEPS as u32
        };
        let mut index: u32 = 0;
        while index < maximum
            invariant
                index <= maximum,
                maximum == (if profile.maximum_boot_steps <= MAXIMUM_BOOT_STEPS {
                    profile.maximum_boot_steps
                } else {
                    MAXIMUM_BOOT_STEPS as u32
                }),
                start == old(trace).log().len(),
                trace.follows_with(*old(trace), *codec),
                forall|log: Seq<HermesEvent<B>>| #[trigger]
                    crate::trace::continues(log, trace.log()) ==> stage_run(
                        *identity,
                        *evidence,
                        *profile,
                        *self,
                        stage,
                        deadline_tick,
                        log,
                        start,
                    ) == steps_run(
                        *identity,
                        *evidence,
                        *profile,
                        *self,
                        stage,
                        deadline_tick,
                        index as nat,
                        maximum as nat,
                        log,
                        trace.log().len() as int,
                    ),
            decreases maximum - index,
        {
            let ghost head = trace.log();
            let now: u64 = trace.now();
            let ghost clocked = trace.log();
            assert(clocked[head.len() as int] == HermesEvent::<B>::Now { tick: now });
            if tick_reached(now, deadline_tick) {
                return Err(HermesFault::DeadlineExpired);
            }
            let asked = trace.boot(codec, identity, evidence, stage, index);
            assert(trace.log()[clocked.len() as int] == HermesEvent::<B>::Boot {
                identity: *identity,
                evidence: *evidence,
                stage,
                index,
                reply: asked,
            });
            let instruction = match asked {
                Err(fault) => {
                    return Err(fault);
                },
                Ok(None) => {
                    return Ok(());
                },
                Ok(Some(instruction)) => instruction,
            };
            match validate_boot_instruction(stage, &instruction) {
                Err(fault) => {
                    return Err(fault);
                },
                Ok(_) => {},
            }
            if instruction.opcode == HERMES_BOOT_END {
                return Ok(());
            }
            match self.execute_instruction(profile, &instruction, deadline_tick, trace) {
                Err(fault) => {
                    return Err(fault);
                },
                Ok(_) => {},
            }
            index = index + 1;
        }
        Err(HermesFault::BootFuelExhausted)
    }
}

fn delay_instruction<B: HermesPlatform>(
    instruction: &HermesBootInstruction,
    deadline_tick: u64,
    trace: &mut HermesTrace<B>,
) -> (result: Result<(), HermesFault>)
    ensures
        final(trace).follows(*old(trace)),
        forall|log: Seq<HermesEvent<B>>| #[trigger]
            crate::trace::continues(log, final(trace).log()) ==> delay_step(
                *instruction,
                deadline_tick,
                log,
                old(trace).log().len() as int,
            ) == Some((result, final(trace).log().len() as int)),
{
    let delay: u64 = instruction.words[0];
    let now: u64 = trace.now();
    assert(trace.log()[old(trace).log().len() as int] == HermesEvent::<B>::Now { tick: now });
    let local_deadline: u64 = match now.checked_add(delay) {
        None => {
            return Err(HermesFault::ArithmeticOverflow);
        },
        Some(tick) => tick,
    };
    let effective_deadline: u64 = earlier_deadline(local_deadline, deadline_tick);
    if !wait_until(effective_deadline, trace) {
        return Err(HermesFault::BootFuelExhausted);
    }
    if effective_deadline != deadline_tick {
        return Ok(());
    }
    let ghost waited = trace.log();
    let later: u64 = trace.now();
    assert(trace.log()[waited.len() as int] == HermesEvent::<B>::Now { tick: later });
    if tick_reached(later, deadline_tick) && delay != 0 {
        return Err(HermesFault::DeadlineExpired);
    }
    Ok(())
}

/// The slot of a ring that an ever-growing index falls on.
#[verifier::allow_in_spec]
pub fn ring_slot(index: u32, depth: u16) -> u32
    requires
        depth > 0,
    returns
        (index & ((depth - 1) as u32)),
{
    index & (depth as u32 - 1)
}

/// Where the slot of an index lies in its ring.
pub open spec fn slot_offset(index: u32, depth: u16, slot_bytes: u16) -> usize {
    (ring_slot(index, depth) * slot_bytes) as usize
}

fn place_of(index: u32, depth: u16, slot_bytes: u16) -> (offset: usize)
    requires
        depth > 0,
    ensures
        offset == slot_offset(index, depth, slot_bytes),
        offset == ring_slot(index, depth) * slot_bytes,
{
    let slot: u32 = ring_slot(index, depth);
    let last: u32 = depth as u32 - 1;
    assert(index & last <= last) by (bit_vector);
    assert(slot * slot_bytes <= 65_534 * 65_535) by (nonlinear_arith)
        requires
            slot <= 65_534,
            slot_bytes <= 65_535,
    ;
    slot as usize * slot_bytes as usize
}

/// In a ring whose depth is a power of two, slots follow one another and start
/// over.
pub proof fn law_ring_slots_cycle(index: u32, depth: u16)
    requires
        crate::hermes_gsp::power_of_two(depth as nat),
    ensures
        ring_slot(index, depth) == index % (depth as u32),
{
    let exponent = lemma_exponent_of(depth as nat);
    vstd::arithmetic::power2::lemma2_to64();
    if exponent > 16 {
        vstd::arithmetic::power2::lemma_pow2_strictly_increases(16, exponent);
    }
    vstd::bits::lemma_u32_low_bits_mask_is_mod(index, exponent);
}

proof fn lemma_exponent_of(n: nat) -> (exponent: nat)
    requires
        crate::hermes_gsp::power_of_two(n),
    ensures
        vstd::arithmetic::power2::pow2(exponent) == n,
    decreases n,
{
    vstd::arithmetic::power2::lemma2_to64();
    if n == 1 {
        0
    } else {
        let half = lemma_exponent_of(n / 2);
        vstd::arithmetic::power2::lemma_pow2_unfold(half + 1);
        half + 1
    }
}

pub open spec fn zeroed(count: nat) -> Seq<u8> {
    Seq::new(count, |i: int| 0u8)
}

fn zeroes(count: usize) -> (bytes: Vec<u8>)
    ensures
        bytes@ == zeroed(count as nat),
{
    let mut bytes: Vec<u8> = Vec::new();
    while bytes.len() < count
        invariant
            bytes@.len() <= count,
            bytes@ =~= zeroed(bytes@.len()),
        decreases count - bytes@.len(),
    {
        bytes.push(0);
    }
    bytes
}

/// The encoding of a command into an empty slot: the wire, and the reply.
pub open spec fn encode_at<B: HermesPlatform>(
    profile: HermesTransportProfile,
    command: CommandShape,
    log: Seq<HermesEvent<B>>,
    at: int,
) -> Option<(Seq<u8>, Result<usize, HermesFault>)> {
    if 0 <= at < log.len() {
        match log[at] {
            HermesEvent::Encode { profile: spoken, command: said, room, wire, reply } => if spoken
                == profile && said == command && room == zeroed(
                profile.command_slot_bytes as nat,
            ) {
                Some((wire, reply))
            } else {
                None
            },
            _ => None,
        }
    } else {
        None
    }
}

pub open spec fn dma_write_at<B: HermesPlatform>(
    region: DmaRegion<B::Dma>,
    offset: usize,
    bytes: Seq<u8>,
    log: Seq<HermesEvent<B>>,
    at: int,
) -> Option<(Result<(), HermesFault>, int)> {
    if 0 <= at < log.len() {
        match log[at] {
            HermesEvent::DmaWrite { region: into, offset: place, bytes: written, reply } => if into
                == region && place == offset && written == bytes {
                Some((reply, at + 1))
            } else {
                None
            },
            _ => None,
        }
    } else {
        None
    }
}

pub open spec fn publish_at<B: HermesPlatform>(
    region: DmaRegion<B::Dma>,
    offset: usize,
    length: usize,
    log: Seq<HermesEvent<B>>,
    at: int,
) -> Option<(Result<(), HermesFault>, int)> {
    if 0 <= at < log.len() {
        match log[at] {
            HermesEvent::Publish { region: of, offset: place, length: extent, reply } => if of
                == region && place == offset && extent == length {
                Some((reply, at + 1))
            } else {
                None
            },
            _ => None,
        }
    } else {
        None
    }
}

pub open spec fn acquire_at<B: HermesPlatform>(
    region: DmaRegion<B::Dma>,
    offset: usize,
    length: usize,
    log: Seq<HermesEvent<B>>,
    at: int,
) -> Option<(Result<(), HermesFault>, int)> {
    if 0 <= at < log.len() {
        match log[at] {
            HermesEvent::Acquire { region: of, offset: place, length: extent, reply } => if of
                == region && place == offset && extent == length {
                Some((reply, at + 1))
            } else {
                None
            },
            _ => None,
        }
    } else {
        None
    }
}

/// The read of a slot: its bytes, and the reply.
pub open spec fn dma_read_at<B: HermesPlatform>(
    region: DmaRegion<B::Dma>,
    offset: usize,
    length: nat,
    log: Seq<HermesEvent<B>>,
    at: int,
) -> Option<(Seq<u8>, Result<(), HermesFault>)> {
    if 0 <= at < log.len() {
        match log[at] {
            HermesEvent::DmaRead { region: from, offset: place, room, bytes, reply } => if from
                == region && place == offset && room == length {
                Some((bytes, reply))
            } else {
                None
            },
            _ => None,
        }
    } else {
        None
    }
}

pub open spec fn decode_at<B: HermesPlatform>(
    profile: HermesTransportProfile,
    wire: Seq<u8>,
    log: Seq<HermesEvent<B>>,
    at: int,
) -> Option<Result<HermesNormalizedEvent, HermesFault>> {
    if 0 <= at < log.len() {
        match log[at] {
            HermesEvent::Decode { profile: spoken, wire: heard, reply } => if spoken == profile
                && heard == wire {
                Some(reply)
            } else {
                None
            },
            _ => None,
        }
    } else {
        None
    }
}

/// How a written slot is handed over: published, fenced, counted and announced.
pub open spec fn handover_run<B: HermesPlatform>(
    profile: HermesTransportProfile,
    lease: HermesLease<B>,
    ring: DmaRegion<B::Dma>,
    offset: usize,
    next_producer: u32,
    log: Seq<HermesEvent<B>>,
    at: int,
) -> Option<(Result<(), HermesFault>, int)> {
    let published = publish_at(ring, offset, profile.command_slot_bytes as usize, log, at);
    let fenced = then_fence(published, log);
    let counted = then_write(
        fenced,
        lease,
        profile.control_bar,
        profile.command_producer_offset,
        next_producer,
        log,
    );
    let announced = then_write(
        counted,
        lease,
        profile.doorbell_bar,
        profile.command_doorbell_offset,
        next_producer,
        log,
    );
    then_fence(announced, log)
}

/// A command put on the wire. Once its slot was written, anything that goes wrong
/// poisons the transport.
pub open spec fn send_run<B: HermesPlatform>(
    profile: HermesTransportProfile,
    lease: HermesLease<B>,
    runtime: RuntimeView,
    command: CommandShape,
    log: Seq<HermesEvent<B>>,
    at: int,
) -> Option<(Result<(), HermesFault>, RuntimeView, int)> {
    match read_run(lease, profile.control_bar, profile.command_consumer_offset, log, at) {
        None => None,
        Some((Err(fault), next)) => Some((Err(fault), runtime, next)),
        Some((Ok(consumer), next)) => {
            let outstanding = runtime.command_producer.wrapping_sub(consumer);
            if outstanding > profile.command_depth {
                Some((Err(HermesFault::QueueCorrupt), runtime.poisoned(), next))
            } else if outstanding == profile.command_depth {
                Some((Err(HermesFault::QueueFull), runtime, next))
            } else {
                match encode_at(profile, command, log, next) {
                    None => None,
                    Some((_, Err(fault))) => Some((Err(fault), runtime, next + 1)),
                    Some((wire, Ok(encoded))) => if encoded == 0 || encoded
                        > profile.command_slot_bytes || encoded > profile.maximum_wire_bytes {
                        Some((Err(HermesFault::CodecRejected), runtime, next + 1))
                    } else {
                        match lease.command_ring {
                            None => Some((Err(HermesFault::DmaAccess), runtime, next + 1)),
                            Some(ring) => {
                                let offset = slot_offset(
                                    runtime.command_producer,
                                    profile.command_depth,
                                    profile.command_slot_bytes,
                                );
                                let next_producer = runtime.command_producer.wrapping_add(1);
                                match dma_write_at(ring, offset, wire, log, next + 1) {
                                    None => None,
                                    Some((Err(fault), then)) => Some((Err(fault), runtime, then)),
                                    Some((Ok(_), then)) => match handover_run(
                                        profile,
                                        lease,
                                        ring,
                                        offset,
                                        next_producer,
                                        log,
                                        then,
                                    ) {
                                        None => None,
                                        Some((Err(fault), end)) => Some(
                                            (Err(fault), runtime.poisoned(), end),
                                        ),
                                        Some((Ok(_), end)) => Some(
                                            (
                                                Ok(()),
                                                RuntimeView {
                                                    command_producer: next_producer,
                                                    ..runtime
                                                },
                                                end,
                                            ),
                                        ),
                                    },
                                }
                            },
                        }
                    },
                }
            }
        },
    }
}

/// How a taken event is acknowledged.
pub open spec fn acknowledge_run<B: HermesPlatform>(
    profile: HermesTransportProfile,
    lease: HermesLease<B>,
    next_consumer: u32,
    log: Seq<HermesEvent<B>>,
    at: int,
) -> Option<(Result<(), HermesFault>, int)> {
    let counted = write_run(
        lease,
        profile.control_bar,
        profile.event_consumer_offset,
        next_consumer,
        log,
        at,
    );
    let announced = then_write(
        counted,
        lease,
        profile.doorbell_bar,
        profile.event_doorbell_offset,
        next_consumer,
        log,
    );
    then_fence(announced, log)
}

/// Whether an event is whole and of the running epoch.
#[verifier::allow_in_spec]
pub fn event_admissible(event: &HermesNormalizedEvent, epoch: u32) -> bool
    returns
        (event.struct_size >= HERMES_EVENT_BYTES && event.payload_length
            <= HERMES_MAX_NORMALIZED_PAYLOAD && event.epoch == epoch),
{
    event.struct_size >= HERMES_EVENT_BYTES && event.payload_length as usize
        <= HERMES_MAX_NORMALIZED_PAYLOAD && event.epoch == epoch
}

/// What a decoded event leads to.
pub open spec fn accept_run<B: HermesPlatform>(
    profile: HermesTransportProfile,
    lease: HermesLease<B>,
    runtime: RuntimeView,
    event: HermesNormalizedEvent,
    log: Seq<HermesEvent<B>>,
    at: int,
) -> Option<(Result<Option<HermesNormalizedEvent>, HermesFault>, RuntimeView, int)> {
    if !event_admissible(&event, runtime.epoch) {
        Some((Err(HermesFault::ProtocolMismatch), runtime.poisoned(), at))
    } else {
        let next_consumer = runtime.event_consumer.wrapping_add(1);
        match acknowledge_run(profile, lease, next_consumer, log, at) {
            None => None,
            Some((Err(fault), end)) => Some((Err(fault), runtime.poisoned(), end)),
            Some((Ok(_), end)) => Some(
                (Ok(Some(event)), RuntimeView { event_consumer: next_consumer, ..runtime }, end),
            ),
        }
    }
}

/// An event taken off the wire, if there is one.
pub open spec fn receive_run<B: HermesPlatform>(
    profile: HermesTransportProfile,
    lease: HermesLease<B>,
    runtime: RuntimeView,
    log: Seq<HermesEvent<B>>,
    at: int,
) -> Option<(Result<Option<HermesNormalizedEvent>, HermesFault>, RuntimeView, int)> {
    match read_run(lease, profile.control_bar, profile.event_producer_offset, log, at) {
        None => None,
        Some((Err(fault), next)) => Some((Err(fault), runtime, next)),
        Some((Ok(producer), next)) => {
            let available = producer.wrapping_sub(runtime.event_consumer);
            if available > profile.event_depth {
                Some((Err(HermesFault::QueueCorrupt), runtime.poisoned(), next))
            } else if available == 0 {
                Some((Ok(None), runtime, next))
            } else {
                match lease.event_ring {
                    None => Some((Err(HermesFault::DmaAccess), runtime, next)),
                    Some(ring) => {
                        let offset = slot_offset(
                            runtime.event_consumer,
                            profile.event_depth,
                            profile.event_slot_bytes,
                        );
                        match acquire_at(
                            ring,
                            offset,
                            profile.event_slot_bytes as usize,
                            log,
                            next,
                        ) {
                            None => None,
                            Some((Err(fault), then)) => Some((Err(fault), runtime, then)),
                            Some((Ok(_), then)) => match dma_read_at(
                                ring,
                                offset,
                                profile.event_slot_bytes as nat,
                                log,
                                then,
                            ) {
                                None => None,
                                Some((_, Err(fault))) => Some((Err(fault), runtime, then + 1)),
                                Some((wire, Ok(_))) => match decode_at(
                                    profile,
                                    wire,
                                    log,
                                    then + 1,
                                ) {
                                    None => None,
                                    Some(Err(fault)) => Some(
                                        (Err(fault), runtime.poisoned(), then + 2),
                                    ),
                                    Some(Ok(event)) => accept_run(
                                        profile,
                                        lease,
                                        runtime,
                                        event,
                                        log,
                                        then + 2,
                                    ),
                                },
                            },
                        }
                    },
                }
            }
        },
    }
}

pub struct Profiled;

pub struct Staged;

pub struct Online;

/// A transport of one personality on one device, in one of its states.
pub struct Hermes<'a, B: HermesPlatform, C, S, State, const PENDING: usize> {
    pub codec: &'a C,
    pub identity: HermesPciIdentity,
    pub evidence: HermesProbeEvidence,
    pub profile: HermesTransportProfile,
    pub compatibility_proof: GpuCompatibilityProof,
    pub firmware_seal: Option<FirmwareSeal>,
    pub lease: HermesLease<B>,
    pub runtime: Runtime<S, PENDING>,
    pub state: PhantomData<State>,
}

impl<
    'a,
    B: HermesPlatform,
    C: HermesCodec,
    S: HermesService,
    State,
    const PENDING: usize,
> Hermes<'a, B, C, S, State, PENDING> {
    /// A transport with rings that can be indexed.
    pub open spec fn wf(&self) -> bool {
        &&& crate::hermes_gsp::ring_well_shaped(
            self.profile.command_depth,
            self.profile.command_slot_bytes,
        )
        &&& crate::hermes_gsp::ring_well_shaped(
            self.profile.event_depth,
            self.profile.event_slot_bytes,
        )
        &&& self.runtime.pending.wf()
    }

    /// The same transport but for its runtime.
    pub open spec fn same_but_runtime(&self, other: &Self) -> bool {
        &&& self.codec == other.codec
        &&& self.identity == other.identity
        &&& self.evidence == other.evidence
        &&& self.profile == other.profile
        &&& self.compatibility_proof == other.compatibility_proof
        &&& self.firmware_seal == other.firmware_seal
        &&& self.lease == other.lease
    }

    fn hand_over(
        &self,
        ring: DmaRegion<B::Dma>,
        offset: usize,
        next_producer: u32,
        trace: &mut HermesTrace<B>,
    ) -> (result: Result<(), HermesFault>)
        ensures
            final(trace).follows(*old(trace)),
            forall|log: Seq<HermesEvent<B>>| #[trigger]
                crate::trace::continues(log, final(trace).log()) ==> handover_run(
                    self.profile,
                    self.lease,
                    ring,
                    offset,
                    next_producer,
                    log,
                    old(trace).log().len() as int,
                ) == Some((result, final(trace).log().len() as int)),
    {
        match trace.publish(ring, offset, self.profile.command_slot_bytes as usize) {
            Err(fault) => {
                return Err(fault);
            },
            Ok(_) => {},
        }
        match trace.fence() {
            Err(fault) => {
                return Err(fault);
            },
            Ok(_) => {},
        }
        match self.lease.write32(
            self.profile.control_bar,
            self.profile.command_producer_offset,
            next_producer,
            trace,
        ) {
            Err(fault) => {
                return Err(fault);
            },
            Ok(_) => {},
        }
        match self.lease.write32(
            self.profile.doorbell_bar,
            self.profile.command_doorbell_offset,
            next_producer,
            trace,
        ) {
            Err(fault) => {
                return Err(fault);
            },
            Ok(_) => {},
        }
        trace.fence()
    }

    pub fn send_wire(&mut self, command: &HermesNormalizedCommand, trace: &mut HermesTrace<B>) -> (
        result: Result<(), HermesFault>)
        requires
            old(self).wf(),
        ensures
            final(self).wf(),
            final(self).same_but_runtime(old(self)),
            final(self).runtime.service == old(self).runtime.service,
            final(trace).follows_with(*old(trace), *old(self).codec),
            forall|log: Seq<HermesEvent<B>>| #[trigger]
                crate::trace::continues(log, final(trace).log()) ==> send_run(
                    old(self).profile,
                    old(self).lease,
                    old(self).runtime@,
                    command.shape(),
                    log,
                    old(trace).log().len() as int,
                ) == Some((result, final(self).runtime@, final(trace).log().len() as int)),
    {
        let depth: u32 = self.profile.command_depth as u32;
        let slot_bytes: usize = self.profile.command_slot_bytes as usize;
        let consumer: u32 = match self.lease.read32(
            self.profile.control_bar,
            self.profile.command_consumer_offset,
            trace,
        ) {
            Err(fault) => {
                return Err(fault);
            },
            Ok(value) => value,
        };
        let outstanding: u32 = self.runtime.command_producer.wrapping_sub(consumer);
        if outstanding > depth {
            self.runtime.poisoned = true;
            return Err(HermesFault::QueueCorrupt);
        }
        if outstanding == depth {
            return Err(HermesFault::QueueFull);
        }
        let mut wire = zeroes(slot_bytes);
        let ghost asked = trace.log();
        let reply = trace.encode(self.codec, &self.profile, command, wire.as_mut_slice());
        let ghost encoded_log = trace.log();
        assert(encoded_log[asked.len() as int] == HermesEvent::<B>::Encode {
            profile: self.profile,
            command: command.shape(),
            room: zeroed(slot_bytes as nat),
            wire: wire@,
            reply,
        });
        let encoded: usize = match reply {
            Err(fault) => {
                return Err(fault);
            },
            Ok(count) => count,
        };
        if encoded == 0 || encoded > slot_bytes || encoded
            > self.profile.maximum_wire_bytes as usize {
            return Err(HermesFault::CodecRejected);
        }
        let ring = match self.lease.command_ring() {
            Err(fault) => {
                return Err(fault);
            },
            Ok(ring) => ring,
        };
        let offset: usize = place_of(
            self.runtime.command_producer,
            self.profile.command_depth,
            self.profile.command_slot_bytes,
        );
        let written = trace.dma_write(ring, offset, wire.as_slice());
        assert(trace.log()[encoded_log.len() as int] == HermesEvent::<B>::DmaWrite {
            region: ring,
            offset,
            bytes: wire@,
            reply: written,
        });
        match written {
            Err(fault) => {
                return Err(fault);
            },
            Ok(_) => {},
        }
        let next_producer: u32 = self.runtime.command_producer.wrapping_add(1);
        match self.hand_over(ring, offset, next_producer, trace) {
            Err(fault) => {
                self.runtime.poisoned = true;
                return Err(fault);
            },
            Ok(_) => {},
        }
        self.runtime.command_producer = next_producer;
        Ok(())
    }

    fn acknowledge(&self, next_consumer: u32, trace: &mut HermesTrace<B>) -> (result: Result<
        (),
        HermesFault,
    >)
        ensures
            final(trace).follows(*old(trace)),
            forall|log: Seq<HermesEvent<B>>| #[trigger]
                crate::trace::continues(log, final(trace).log()) ==> acknowledge_run(
                    self.profile,
                    self.lease,
                    next_consumer,
                    log,
                    old(trace).log().len() as int,
                ) == Some((result, final(trace).log().len() as int)),
    {
        match self.lease.write32(
            self.profile.control_bar,
            self.profile.event_consumer_offset,
            next_consumer,
            trace,
        ) {
            Err(fault) => {
                return Err(fault);
            },
            Ok(_) => {},
        }
        match self.lease.write32(
            self.profile.doorbell_bar,
            self.profile.event_doorbell_offset,
            next_consumer,
            trace,
        ) {
            Err(fault) => {
                return Err(fault);
            },
            Ok(_) => {},
        }
        trace.fence()
    }

    pub fn read_wire_event(&mut self, trace: &mut HermesTrace<B>) -> (result: Result<
        Option<HermesNormalizedEvent>,
        HermesFault,
    >)
        requires
            old(self).wf(),
        ensures
            final(self).wf(),
            final(self).same_but_runtime(old(self)),
            final(self).runtime.service == old(self).runtime.service,
            final(trace).follows_with(*old(trace), *old(self).codec),
            forall|log: Seq<HermesEvent<B>>| #[trigger]
                crate::trace::continues(log, final(trace).log()) ==> receive_run(
                    old(self).profile,
                    old(self).lease,
                    old(self).runtime@,
                    log,
                    old(trace).log().len() as int,
                ) == Some((result, final(self).runtime@, final(trace).log().len() as int)),
    {
        let producer: u32 = match self.lease.read32(
            self.profile.control_bar,
            self.profile.event_producer_offset,
            trace,
        ) {
            Err(fault) => {
                return Err(fault);
            },
            Ok(value) => value,
        };
        let depth: u32 = self.profile.event_depth as u32;
        let available: u32 = producer.wrapping_sub(self.runtime.event_consumer);
        if available > depth {
            self.runtime.poisoned = true;
            return Err(HermesFault::QueueCorrupt);
        }
        if available == 0 {
            return Ok(None);
        }
        let slot_bytes: usize = self.profile.event_slot_bytes as usize;
        let offset: usize = place_of(
            self.runtime.event_consumer,
            self.profile.event_depth,
            self.profile.event_slot_bytes,
        );
        let ring = match self.lease.event_ring() {
            Err(fault) => {
                return Err(fault);
            },
            Ok(ring) => ring,
        };
        let ghost asked = trace.log();
        let acquired = trace.acquire(ring, offset, slot_bytes);
        let ghost acquired_log = trace.log();
        assert(acquired_log[asked.len() as int] == HermesEvent::<B>::Acquire {
            region: ring,
            offset,
            length: slot_bytes,
            reply: acquired,
        });
        match acquired {
            Err(fault) => {
                return Err(fault);
            },
            Ok(_) => {},
        }
        let mut wire = zeroes(slot_bytes);
        let reply = trace.dma_read(ring, offset, wire.as_mut_slice());
        let ghost read_log = trace.log();
        assert(read_log[acquired_log.len() as int] == HermesEvent::<B>::DmaRead {
            region: ring,
            offset,
            room: slot_bytes as nat,
            bytes: wire@,
            reply,
        });
        match reply {
            Err(fault) => {
                return Err(fault);
            },
            Ok(_) => {},
        }
        let decoded = trace.decode(self.codec, &self.profile, wire.as_slice());
        assert(trace.log()[read_log.len() as int] == HermesEvent::<B>::Decode {
            profile: self.profile,
            wire: wire@,
            reply: decoded,
        });
        let event = match decoded {
            Err(fault) => {
                self.runtime.poisoned = true;
                return Err(fault);
            },
            Ok(event) => event,
        };
        if !event_admissible(&event, self.runtime.epoch) {
            self.runtime.poisoned = true;
            return Err(HermesFault::ProtocolMismatch);
        }
        let next_consumer: u32 = self.runtime.event_consumer.wrapping_add(1);
        match self.acknowledge(next_consumer, trace) {
            Err(fault) => {
                self.runtime.poisoned = true;
                return Err(fault);
            },
            Ok(_) => {},
        }
        self.runtime.event_consumer = next_consumer;
        Ok(Some(event))
    }
}

#[derive(Clone, Copy, Debug, PartialEq, Eq, Structural)]
pub enum EventDisposition {
    Reply { epoch: u32, sequence: u32 },
    Asynchronous,
    Unclassified,
}

#[derive(Clone, Copy, Debug, PartialEq, Eq)]
pub struct ReceivedEvent {
    pub event: HermesNormalizedEvent,
    pub disposition: EventDisposition,
}

pub open spec fn reserve_at<B: HermesPlatform>(
    now_tick: u64,
    deadline_tick: u64,
    backlog: nat,
    log: Seq<HermesEvent<B>>,
    at: int,
) -> Option<Result<HermesAdmissionCertificate, HermesAdmissionFault>> {
    if 0 <= at < log.len() {
        match log[at] {
            HermesEvent::Reserve {
                now_tick: now,
                deadline_tick: deadline,
                backlog: waiting,
                reply,
            } => if now == now_tick && deadline == deadline_tick && waiting == backlog {
                Some(reply)
            } else {
                None
            },
            _ => None,
        }
    } else {
        None
    }
}

pub open spec fn rollback_at<B: HermesPlatform>(
    admission: HermesAdmissionCertificate,
    log: Seq<HermesEvent<B>>,
    at: int,
) -> Option<Result<(), HermesAdmissionFault>> {
    if 0 <= at < log.len() {
        match log[at] {
            HermesEvent::Rollback { admission: given, reply } => if given == admission {
                Some(reply)
            } else {
                None
            },
            _ => None,
        }
    } else {
        None
    }
}

pub open spec fn complete_at<B: HermesPlatform>(
    admission: HermesAdmissionCertificate,
    now_tick: u64,
    log: Seq<HermesEvent<B>>,
    at: int,
) -> Option<Result<(), HermesAdmissionFault>> {
    if 0 <= at < log.len() {
        match log[at] {
            HermesEvent::Complete { admission: given, now_tick: now, reply } => if given
                == admission && now == now_tick {
                Some(reply)
            } else {
                None
            },
            _ => None,
        }
    } else {
        None
    }
}

/// A reservation given back after a fault.
pub open spec fn withdraw_run<B: HermesPlatform, T>(
    admission: HermesAdmissionCertificate,
    fault: HermesFault,
    runtime: RuntimeView,
    log: Seq<HermesEvent<B>>,
    at: int,
) -> Option<(Result<T, HermesFault>, RuntimeView, int)> {
    match rollback_at(admission, log, at) {
        None => None,
        Some(Err(_)) => Some((Err(HermesFault::ServiceReservationCorrupt), runtime, at + 1)),
        Some(Ok(_)) => Some((Err(fault), runtime, at + 1)),
    }
}

/// What a submission asks for.
pub struct Submission {
    pub opcode: u32,
    pub flags: u32,
    pub object: u64,
    pub arguments: Seq<u64>,
    pub payload: Seq<u8>,
    pub deadline_tick: u64,
}

/// An admitted submission: it waits under a correlation of its own and goes out, or
/// its reservation is given back.
pub open spec fn dispatch_run<B: HermesPlatform>(
    profile: HermesTransportProfile,
    lease: HermesLease<B>,
    runtime: RuntimeView,
    asked: Submission,
    admission: HermesAdmissionCertificate,
    log: Seq<HermesEvent<B>>,
    at: int,
) -> Option<(Result<(u32, u32), HermesFault>, RuntimeView, int)> {
    if runtime.exhausted() {
        withdraw_run(admission, HermesFault::CorrelationSpaceExhausted, runtime, log, at)
    } else {
        let correlation = (runtime.epoch, runtime.next_sequence);
        let taken = runtime.advanced();
        let request = PendingRequest {
            live: true,
            epoch: correlation.0,
            sequence: correlation.1,
            opcode: asked.opcode,
            deadline_tick: asked.deadline_tick,
            admission,
        };
        match crate::hermes_gsp::inserted(taken.pending, request) {
            (Err(fault), _) => withdraw_run(admission, fault, taken, log, at),
            (Ok(_), pending) => {
                let waiting = RuntimeView { pending, ..taken };
                let command = crate::hermes_abi::shape_with(
                    correlation,
                    asked.opcode,
                    asked.flags,
                    asked.object,
                    asked.arguments,
                    asked.payload,
                    asked.deadline_tick,
                );
                match send_run(profile, lease, waiting, command, log, at) {
                    None => None,
                    Some((Err(fault), after, next)) => withdraw_run(
                        admission,
                        fault,
                        RuntimeView {
                            pending: crate::hermes_gsp::cancelled(
                                after.pending,
                                correlation.0,
                                correlation.1,
                            ),
                            ..after
                        },
                        log,
                        next,
                    ),
                    Some((Ok(_), after, next)) => Some(
                        (
                            Ok(correlation),
                            RuntimeView { last_admission: admission, ..after },
                            next,
                        ),
                    ),
                }
            },
        }
    }
}

/// A submission.
pub open spec fn submit_run<B: HermesPlatform>(
    profile: HermesTransportProfile,
    lease: HermesLease<B>,
    runtime: RuntimeView,
    asked: Submission,
    log: Seq<HermesEvent<B>>,
    at: int,
) -> Option<(Result<(u32, u32), HermesFault>, RuntimeView, int)> {
    if runtime.poisoned {
        Some((Err(HermesFault::RecoveryRequired), runtime, at))
    } else if asked.opcode == 0 || asked.payload.len() > HERMES_MAX_NORMALIZED_PAYLOAD {
        Some((Err(HermesFault::ProtocolMismatch), runtime, at))
    } else {
        match now_at(log, at) {
            None => None,
            Some(now) => if tick_reached(now, asked.deadline_tick) {
                Some((Err(HermesFault::DeadlineExpired), runtime, at + 1))
            } else {
                match reserve_at(
                    now,
                    asked.deadline_tick,
                    crate::hermes_gsp::live_in(runtime.pending),
                    log,
                    at + 1,
                ) {
                    None => None,
                    Some(Err(fault)) => Some((Err(map_admission_fault(fault)), runtime, at + 2)),
                    Some(Ok(admission)) => dispatch_run(
                        profile,
                        lease,
                        runtime,
                        asked,
                        admission,
                        log,
                        at + 2,
                    ),
                }
            },
        }
    }
}

/// A fault event: the transport is poisoned, and a command that it names is done.
pub open spec fn fault_run<B: HermesPlatform>(
    runtime: RuntimeView,
    event: HermesNormalizedEvent,
    now_tick: u64,
    log: Seq<HermesEvent<B>>,
    at: int,
) -> Option<(Result<Option<ReceivedEvent>, HermesFault>, RuntimeView, int)> {
    let broken = runtime.poisoned();
    if event.correlation_epoch == 0 || event.correlation_sequence == 0 {
        Some((Err(HermesFault::RecoveryRequired), broken, at))
    } else {
        match crate::hermes_gsp::response_of(
            broken.pending,
            event.correlation_epoch,
            event.correlation_sequence,
        ) {
            Err(_) => Some((Err(HermesFault::RecoveryRequired), broken, at)),
            Ok(pending) => {
                let after = RuntimeView {
                    pending: crate::hermes_gsp::cancelled(
                        broken.pending,
                        event.correlation_epoch,
                        event.correlation_sequence,
                    ),
                    ..broken
                };
                match complete_at(pending.admission, now_tick, log, at) {
                    None => None,
                    Some(Err(fault)) => Some((Err(map_admission_fault(fault)), after, at + 1)),
                    Some(Ok(_)) => Some((Err(HermesFault::RecoveryRequired), after, at + 1)),
                }
            },
        }
    }
}

/// A reply: the command that it answers is done, unless nothing waits for it.
pub open spec fn reply_run<B: HermesPlatform>(
    runtime: RuntimeView,
    event: HermesNormalizedEvent,
    now_tick: u64,
    log: Seq<HermesEvent<B>>,
    at: int,
) -> Option<(Result<Option<ReceivedEvent>, HermesFault>, RuntimeView, int)> {
    match crate::hermes_gsp::response_of(
        runtime.pending,
        event.correlation_epoch,
        event.correlation_sequence,
    ) {
        Err(fault) => Some((Err(fault), runtime.poisoned(), at)),
        Ok(pending) => {
            let after = RuntimeView {
                pending: crate::hermes_gsp::cancelled(
                    runtime.pending,
                    event.correlation_epoch,
                    event.correlation_sequence,
                ),
                ..runtime
            };
            match complete_at(pending.admission, now_tick, log, at) {
                None => None,
                Some(Err(fault)) => Some(
                    (Err(map_admission_fault(fault)), after.poisoned(), at + 1),
                ),
                Some(Ok(_)) => if tick_reached(now_tick, pending.deadline_tick) {
                    Some((Err(HermesFault::ResponseExpired), after, at + 1))
                } else if pending.opcode != event.opcode {
                    Some((Err(HermesFault::ResponseMismatch), after.poisoned(), at + 1))
                } else {
                    Some(
                        (
                            Ok(
                                Some(
                                    ReceivedEvent {
                                        event,
                                        disposition: EventDisposition::Reply {
                                            epoch: pending.epoch,
                                            sequence: pending.sequence,
                                        },
                                    },
                                ),
                            ),
                            after,
                            at + 1,
                        ),
                    )
                },
            }
        },
    }
}

/// A poll for an event.
pub open spec fn event_run<B: HermesPlatform>(
    profile: HermesTransportProfile,
    lease: HermesLease<B>,
    runtime: RuntimeView,
    log: Seq<HermesEvent<B>>,
    at: int,
) -> Option<(Result<Option<ReceivedEvent>, HermesFault>, RuntimeView, int)> {
    if runtime.poisoned {
        Some((Err(HermesFault::RecoveryRequired), runtime, at))
    } else {
        match receive_run(profile, lease, runtime, log, at) {
            None => None,
            Some((Err(fault), after, next)) => Some((Err(fault), after, next)),
            Some((Ok(None), after, next)) => Some((Ok(None), after, next)),
            Some((Ok(Some(event)), after, next)) => match now_at(log, next) {
                None => None,
                Some(now) => if event.event_kind == HERMES_EVENT_FAULT {
                    fault_run(after, event, now, log, next + 1)
                } else if event.event_kind == HERMES_EVENT_REPLY {
                    reply_run(after, event, now, log, next + 1)
                } else {
                    Some(
                        (
                            Ok(
                                Some(
                                    ReceivedEvent {
                                        event,
                                        disposition: if event.event_kind == HERMES_EVENT_ASYNC {
                                            EventDisposition::Asynchronous
                                        } else {
                                            EventDisposition::Unclassified
                                        },
                                    },
                                ),
                            ),
                            after,
                            next + 1,
                        ),
                    )
                },
            },
        }
    }
}

/// The expiry of one command whose deadline has come.
pub open spec fn expire_run<B: HermesPlatform>(
    runtime: RuntimeView,
    log: Seq<HermesEvent<B>>,
    at: int,
) -> Option<(Result<Option<(u32, u32)>, HermesFault>, RuntimeView, int)> {
    if runtime.poisoned {
        Some((Err(HermesFault::RecoveryRequired), runtime, at))
    } else {
        match now_at(log, at) {
            None => None,
            Some(now) => match crate::hermes_gsp::due_slot(runtime.pending, now, 0) {
                None => Some((Ok(None), runtime, at + 1)),
                Some(slot) => {
                    let expired = runtime.pending[slot];
                    let after = RuntimeView {
                        pending: runtime.pending.update(slot, PendingRequest::empty()),
                        ..runtime
                    };
                    match complete_at(expired.admission, now, log, at + 1) {
                        None => None,
                        Some(Err(fault)) => Some(
                            (Err(map_admission_fault(fault)), after, at + 2),
                        ),
                        Some(Ok(_)) => Some(
                            (Ok(Some((expired.epoch, expired.sequence))), after, at + 2),
                        ),
                    }
                },
            },
        }
    }
}

impl<
    'a,
    B: HermesPlatform,
    C: HermesCodec,
    S: HermesService,
    const PENDING: usize,
> Hermes<'a, B, C, S, Online, PENDING> {
    #[verifier::allow_in_spec]
    pub fn identity(&self) -> HermesPciIdentity
        returns
            self.identity,
    {
        self.identity
    }

    #[verifier::allow_in_spec]
    pub fn profile(&self) -> HermesTransportProfile
        returns
            self.profile,
    {
        self.profile
    }

    #[verifier::allow_in_spec]
    pub fn compatibility_proof(&self) -> GpuCompatibilityProof
        returns
            self.compatibility_proof,
    {
        self.compatibility_proof
    }

    #[verifier::allow_in_spec]
    pub fn negotiated_features(&self) -> u64
        returns
            self.runtime.negotiated_features,
    {
        self.runtime.negotiated_features
    }

    #[verifier::allow_in_spec]
    pub fn transport_poisoned(&self) -> bool
        returns
            self.runtime.poisoned,
    {
        self.runtime.poisoned
    }

    #[verifier::allow_in_spec]
    pub fn firmware_seal(&self) -> Option<FirmwareSeal>
        returns
            self.firmware_seal,
    {
        self.firmware_seal
    }

    pub fn service_curve(&self) -> (curve: HermesServiceCurve)
        ensures
            call_ensures(S::curve, (&self.runtime.service,), curve),
    {
        self.runtime.service.curve()
    }

    #[verifier::allow_in_spec]
    pub fn last_admission_certificate(&self) -> HermesAdmissionCertificate
        returns
            self.runtime.last_admission,
    {
        self.runtime.last_admission
    }

    fn withdraw<T>(
        &mut self,
        admission: HermesAdmissionCertificate,
        fault: HermesFault,
        trace: &mut HermesTrace<B>,
    ) -> (result: Result<T, HermesFault>)
        requires
            old(self).wf(),
        ensures
            final(self).wf(),
            final(self).same_but_runtime(old(self)),
            final(trace).follows_served(
                *old(trace),
                *old(self).codec,
                final(self).runtime.service,
                old(self).runtime.service,
            ),
            forall|log: Seq<HermesEvent<B>>| #[trigger]
                crate::trace::continues(log, final(trace).log()) ==> withdraw_run::<B, T>(
                    admission,
                    fault,
                    old(self).runtime@,
                    log,
                    old(trace).log().len() as int,
                ) == Some((result, final(self).runtime@, final(trace).log().len() as int)),
    {
        let ghost unasked = *trace;
        let ghost serving = self.runtime.service;
        let reply = trace.rollback(&mut self.runtime.service, admission);
        proof {
            crate::hermes_trace::lemma_asked_service(
                unasked,
                *trace,
                *self.codec,
                self.runtime.service,
                serving,
                trace.log().last(),
            );
        }
        assert(trace.log()[old(trace).log().len() as int] == HermesEvent::<B>::Rollback {
            admission,
            reply,
        });
        match reply {
            Err(_) => Err(HermesFault::ServiceReservationCorrupt),
            Ok(_) => Err(fault),
        }
    }

    fn dispatch(
        &mut self,
        opcode: u32,
        flags: u32,
        object: u64,
        arguments: [u64; 8],
        payload: &[u8],
        deadline_tick: u64,
        admission: HermesAdmissionCertificate,
        trace: &mut HermesTrace<B>,
    ) -> (result: Result<(u32, u32), HermesFault>)
        requires
            old(self).wf(),
            payload@.len() <= HERMES_MAX_NORMALIZED_PAYLOAD,
        ensures
            final(self).wf(),
            final(self).same_but_runtime(old(self)),
            final(trace).follows_served(
                *old(trace),
                *old(self).codec,
                final(self).runtime.service,
                old(self).runtime.service,
            ),
            forall|log: Seq<HermesEvent<B>>| #[trigger]
                crate::trace::continues(log, final(trace).log()) ==> dispatch_run(
                    old(self).profile,
                    old(self).lease,
                    old(self).runtime@,
                    (Submission {
                        opcode,
                        flags,
                        object,
                        arguments: arguments@,
                        payload: payload@,
                        deadline_tick,
                    }),
                    admission,
                    log,
                    old(trace).log().len() as int,
                ) == Some((result, final(self).runtime@, final(trace).log().len() as int)),
    {
        let correlation: (u32, u32) = match self.runtime.allocate_correlation() {
            Err(fault) => {
                return self.withdraw(admission, fault, trace);
            },
            Ok(correlation) => correlation,
        };
        let command = HermesNormalizedCommand::build(
            correlation,
            opcode,
            flags,
            object,
            arguments,
            payload,
            deadline_tick,
        );
        match self.runtime.pending.insert(
            PendingRequest {
                live: true,
                epoch: correlation.0,
                sequence: correlation.1,
                opcode,
                deadline_tick,
                admission,
            },
        ) {
            Err(fault) => {
                return self.withdraw(admission, fault, trace);
            },
            Ok(_) => {},
        }
        match self.send_wire(&command, trace) {
            Err(fault) => {
                self.runtime.pending.cancel(correlation.0, correlation.1);
                return self.withdraw(admission, fault, trace);
            },
            Ok(_) => {},
        }
        self.runtime.last_admission = admission;
        Ok(correlation)
    }

    pub fn submit(
        &mut self,
        opcode: u32,
        flags: u32,
        object: u64,
        arguments: [u64; 8],
        payload: &[u8],
        deadline_tick: u64,
        trace: &mut HermesTrace<B>,
    ) -> (result: Result<(u32, u32), HermesFault>)
        requires
            old(self).wf(),
        ensures
            final(self).wf(),
            final(self).same_but_runtime(old(self)),
            final(trace).follows_served(
                *old(trace),
                *old(self).codec,
                final(self).runtime.service,
                old(self).runtime.service,
            ),
            forall|log: Seq<HermesEvent<B>>| #[trigger]
                crate::trace::continues(log, final(trace).log()) ==> submit_run(
                    old(self).profile,
                    old(self).lease,
                    old(self).runtime@,
                    (Submission {
                        opcode,
                        flags,
                        object,
                        arguments: arguments@,
                        payload: payload@,
                        deadline_tick,
                    }),
                    log,
                    old(trace).log().len() as int,
                ) == Some((result, final(self).runtime@, final(trace).log().len() as int)),
    {
        if self.runtime.poisoned {
            return Err(HermesFault::RecoveryRequired);
        }
        if opcode == 0 || payload.len() > HERMES_MAX_NORMALIZED_PAYLOAD {
            return Err(HermesFault::ProtocolMismatch);
        }
        let now_tick: u64 = trace.now();
        let ghost clocked = trace.log();
        assert(clocked[old(trace).log().len() as int] == HermesEvent::<B>::Now { tick: now_tick });
        if tick_reached(now_tick, deadline_tick) {
            return Err(HermesFault::DeadlineExpired);
        }
        let backlog: usize = self.runtime.pending.live_count();
        let ghost unasked = *trace;
        let ghost serving = self.runtime.service;
        let reply = trace.reserve(&mut self.runtime.service, now_tick, deadline_tick, backlog);
        proof {
            crate::hermes_trace::lemma_asked_service(
                unasked,
                *trace,
                *self.codec,
                self.runtime.service,
                serving,
                trace.log().last(),
            );
        }
        assert(trace.log()[clocked.len() as int] == HermesEvent::<B>::Reserve {
            now_tick,
            deadline_tick,
            backlog,
            reply,
        });
        let admission = match reply {
            Err(fault) => {
                return Err(map_admission_fault(fault));
            },
            Ok(admission) => admission,
        };
        self.dispatch(
            opcode,
            flags,
            object,
            arguments,
            payload,
            deadline_tick,
            admission,
            trace,
        )
    }

    fn take_fault(
        &mut self,
        event: &HermesNormalizedEvent,
        now_tick: u64,
        trace: &mut HermesTrace<B>,
    ) -> (
        result: Result<Option<ReceivedEvent>, HermesFault>)
        requires
            old(self).wf(),
        ensures
            final(self).wf(),
            final(self).same_but_runtime(old(self)),
            final(trace).follows_served(
                *old(trace),
                *old(self).codec,
                final(self).runtime.service,
                old(self).runtime.service,
            ),
            forall|log: Seq<HermesEvent<B>>| #[trigger]
                crate::trace::continues(log, final(trace).log()) ==> fault_run(
                    old(self).runtime@,
                    *event,
                    now_tick,
                    log,
                    old(trace).log().len() as int,
                ) == Some((result, final(self).runtime@, final(trace).log().len() as int)),
    {
        self.runtime.poisoned = true;
        if event.correlation_epoch != 0 && event.correlation_sequence != 0 {
            match self.runtime.pending.take_response(event) {
                Err(_) => {},
                Ok(pending) => {
                    let ghost unasked = *trace;
                    let ghost serving = self.runtime.service;
                    let reply = trace.complete(
                        &mut self.runtime.service,
                        pending.admission,
                        now_tick,
                    );
                    proof {
                        crate::hermes_trace::lemma_asked_service(
                            unasked,
                            *trace,
                            *self.codec,
                            self.runtime.service,
                            serving,
                            trace.log().last(),
                        );
                    }
                    assert(trace.log()[old(trace).log().len() as int]
                        == HermesEvent::<B>::Complete {
                        admission: pending.admission,
                        now_tick,
                        reply,
                    });
                    match reply {
                        Err(fault) => {
                            return Err(map_admission_fault(fault));
                        },
                        Ok(_) => {},
                    }
                },
            }
        }
        Err(HermesFault::RecoveryRequired)
    }

    fn take_reply(
        &mut self,
        event: &HermesNormalizedEvent,
        now_tick: u64,
        trace: &mut HermesTrace<B>,
    ) -> (
        result: Result<Option<ReceivedEvent>, HermesFault>)
        requires
            old(self).wf(),
        ensures
            final(self).wf(),
            final(self).same_but_runtime(old(self)),
            final(trace).follows_served(
                *old(trace),
                *old(self).codec,
                final(self).runtime.service,
                old(self).runtime.service,
            ),
            forall|log: Seq<HermesEvent<B>>| #[trigger]
                crate::trace::continues(log, final(trace).log()) ==> reply_run(
                    old(self).runtime@,
                    *event,
                    now_tick,
                    log,
                    old(trace).log().len() as int,
                ) == Some((result, final(self).runtime@, final(trace).log().len() as int)),
    {
        let pending = match self.runtime.pending.take_response(event) {
            Err(fault) => {
                self.runtime.poisoned = true;
                return Err(fault);
            },
            Ok(pending) => pending,
        };
        let ghost unasked = *trace;
        let ghost serving = self.runtime.service;
        let reply = trace.complete(&mut self.runtime.service, pending.admission, now_tick);
        proof {
            crate::hermes_trace::lemma_asked_service(
                unasked,
                *trace,
                *self.codec,
                self.runtime.service,
                serving,
                trace.log().last(),
            );
        }
        assert(trace.log()[old(trace).log().len() as int] == HermesEvent::<B>::Complete {
            admission: pending.admission,
            now_tick,
            reply,
        });
        match reply {
            Err(fault) => {
                self.runtime.poisoned = true;
                return Err(map_admission_fault(fault));
            },
            Ok(_) => {},
        }
        if tick_reached(now_tick, pending.deadline_tick) {
            return Err(HermesFault::ResponseExpired);
        }
        if pending.opcode != event.opcode {
            self.runtime.poisoned = true;
            return Err(HermesFault::ResponseMismatch);
        }
        Ok(
            Some(
                ReceivedEvent {
                    event: *event,
                    disposition: EventDisposition::Reply {
                        epoch: pending.epoch,
                        sequence: pending.sequence,
                    },
                },
            ),
        )
    }

    pub fn poll_event(&mut self, trace: &mut HermesTrace<B>) -> (result: Result<
        Option<ReceivedEvent>,
        HermesFault,
    >)
        requires
            old(self).wf(),
        ensures
            final(self).wf(),
            final(self).same_but_runtime(old(self)),
            final(trace).follows_served(
                *old(trace),
                *old(self).codec,
                final(self).runtime.service,
                old(self).runtime.service,
            ),
            forall|log: Seq<HermesEvent<B>>| #[trigger]
                crate::trace::continues(log, final(trace).log()) ==> event_run(
                    old(self).profile,
                    old(self).lease,
                    old(self).runtime@,
                    log,
                    old(trace).log().len() as int,
                ) == Some((result, final(self).runtime@, final(trace).log().len() as int)),
    {
        if self.runtime.poisoned {
            return Err(HermesFault::RecoveryRequired);
        }
        let event = match self.read_wire_event(trace) {
            Err(fault) => {
                return Err(fault);
            },
            Ok(None) => {
                return Ok(None);
            },
            Ok(Some(event)) => event,
        };
        let ghost received = trace.log();
        let now_tick: u64 = trace.now();
        assert(trace.log()[received.len() as int] == HermesEvent::<B>::Now { tick: now_tick });
        if event.event_kind == HERMES_EVENT_FAULT {
            return self.take_fault(&event, now_tick, trace);
        }
        if event.event_kind == HERMES_EVENT_REPLY {
            return self.take_reply(&event, now_tick, trace);
        }
        let disposition = if event.event_kind == HERMES_EVENT_ASYNC {
            EventDisposition::Asynchronous
        } else {
            EventDisposition::Unclassified
        };
        Ok(Some(ReceivedEvent { event, disposition }))
    }

    pub fn expire_one(&mut self, trace: &mut HermesTrace<B>) -> (result: Result<
        Option<(u32, u32)>,
        HermesFault,
    >)
        requires
            old(self).wf(),
        ensures
            final(self).wf(),
            final(self).same_but_runtime(old(self)),
            final(trace).follows_served(
                *old(trace),
                *old(self).codec,
                final(self).runtime.service,
                old(self).runtime.service,
            ),
            forall|log: Seq<HermesEvent<B>>| #[trigger]
                crate::trace::continues(log, final(trace).log()) ==> expire_run(
                    old(self).runtime@,
                    log,
                    old(trace).log().len() as int,
                ) == Some((result, final(self).runtime@, final(trace).log().len() as int)),
    {
        if self.runtime.poisoned {
            return Err(HermesFault::RecoveryRequired);
        }
        let now_tick: u64 = trace.now();
        let ghost clocked = trace.log();
        assert(clocked[old(trace).log().len() as int] == HermesEvent::<B>::Now { tick: now_tick });
        let expired = match self.runtime.pending.expire_one(now_tick) {
            None => {
                return Ok(None);
            },
            Some(expired) => expired,
        };
        let ghost unasked = *trace;
        let ghost serving = self.runtime.service;
        let reply = trace.complete(&mut self.runtime.service, expired.admission, now_tick);
        proof {
            crate::hermes_trace::lemma_asked_service(
                unasked,
                *trace,
                *self.codec,
                self.runtime.service,
                serving,
                trace.log().last(),
            );
        }
        assert(trace.log()[clocked.len() as int] == HermesEvent::<B>::Complete {
            admission: expired.admission,
            now_tick,
            reply,
        });
        match reply {
            Err(fault) => Err(map_admission_fault(fault)),
            Ok(_) => Ok(Some((expired.epoch, expired.sequence))),
        }
    }
}

/// A poisoned transport stays poisoned: it sends nothing, takes nothing and expires
/// nothing, and asks for recovery without a word to the outside.
pub proof fn law_poison_is_permanent<B: HermesPlatform>(
    profile: HermesTransportProfile,
    lease: HermesLease<B>,
    runtime: RuntimeView,
    asked: Submission,
    log: Seq<HermesEvent<B>>,
    at: int,
)
    requires
        runtime.poisoned,
    ensures
        submit_run(profile, lease, runtime, asked, log, at) == Some(
            (Err::<(u32, u32), _>(HermesFault::RecoveryRequired), runtime, at),
        ),
        event_run(profile, lease, runtime, log, at) == Some(
            (Err::<Option<ReceivedEvent>, _>(HermesFault::RecoveryRequired), runtime, at),
        ),
        expire_run(runtime, log, at) == Some(
            (Err::<Option<(u32, u32)>, _>(HermesFault::RecoveryRequired), runtime, at),
        ),
{
}

/// A submission that fails after it was admitted ends with its reservation given
/// back.
pub proof fn law_a_failed_submission_returns_its_reservation<B: HermesPlatform>(
    profile: HermesTransportProfile,
    lease: HermesLease<B>,
    runtime: RuntimeView,
    asked: Submission,
    admission: HermesAdmissionCertificate,
    log: Seq<HermesEvent<B>>,
    at: int,
)
    requires
        dispatch_run(profile, lease, runtime, asked, admission, log, at) matches Some(
            (Err(_), _, _),
        ),
    ensures
        dispatch_run(profile, lease, runtime, asked, admission, log, at) matches Some(
            (Err(_), _, end),
        ) && rollback_at(admission, log, end - 1) is Some,
{
}

/// A submission that fails leaves no command behind: what waits after it waited
/// before, and the command queue has not moved.
pub proof fn law_a_failed_submission_leaves_nothing_waiting<B: HermesPlatform>(
    profile: HermesTransportProfile,
    lease: HermesLease<B>,
    runtime: RuntimeView,
    asked: Submission,
    log: Seq<HermesEvent<B>>,
    at: int,
)
    requires
        submit_run(profile, lease, runtime, asked, log, at) matches Some((Err(_), _, _)),
    ensures
        submit_run(profile, lease, runtime, asked, log, at) matches Some((Err(_), after, _))
            && after.command_producer == runtime.command_producer && after.pending.len()
            == runtime.pending.len() && forall|i: int|
            0 <= i < runtime.pending.len() ==> (after.pending[i].live
                == runtime.pending[i].live) && (runtime.pending[i].live ==> (
            #[trigger] after.pending[i]) == runtime.pending[i]),
{
    match now_at(log, at) {
        None => {},
        Some(now) => {
            match reserve_at(
                now,
                asked.deadline_tick,
                crate::hermes_gsp::live_in(runtime.pending),
                log,
                at + 1,
            ) {
                Some(Ok(admission)) => {
                    let request = PendingRequest {
                        live: true,
                        epoch: runtime.epoch,
                        sequence: runtime.next_sequence,
                        opcode: asked.opcode,
                        deadline_tick: asked.deadline_tick,
                        admission,
                    };
                    if crate::hermes_gsp::inserted(runtime.pending, request).0 is Ok {
                        crate::hermes_gsp::law_a_reply_finds_its_request(runtime.pending, request);
                        crate::hermes_gsp::lemma_free_in_range(runtime.pending, 0);
                    }
                },
                _ => {},
            }
        },
    }
}

/// What a lease holds.
#[verifier::ext_equal]
pub struct LeaseView<B: HermesPlatform> {
    pub domain: Option<B::Domain>,
    pub bars: Seq<Option<MmioWindow<B::Mmio>>>,
    pub firmware: Option<DmaRegion<B::Dma>>,
    pub command_ring: Option<DmaRegion<B::Dma>>,
    pub event_ring: Option<DmaRegion<B::Dma>>,
}

impl<B: HermesPlatform> View for HermesLease<B> {
    type V = LeaseView<B>;

    open spec fn view(&self) -> LeaseView<B> {
        LeaseView {
            domain: self.domain,
            bars: self.bars@,
            firmware: self.firmware,
            command_ring: self.command_ring,
            event_ring: self.event_ring,
        }
    }
}

/// The release of a region that may be there.
pub open spec fn region_release<B: HermesPlatform>(region: Option<DmaRegion<B::Dma>>) -> Seq<
    HermesEvent<B>,
> {
    match region {
        None => Seq::empty(),
        Some(region) => seq![HermesEvent::ReleaseDma { region }],
    }
}

/// The release of the first BARs, the last of them first.
pub open spec fn bars_release<B: HermesPlatform>(
    bars: Seq<Option<MmioWindow<B::Mmio>>>,
    count: nat,
) -> Seq<HermesEvent<B>>
    decreases count,
{
    if count == 0 {
        Seq::empty()
    } else {
        (match bars[count - 1] {
            None => Seq::empty(),
            Some(window) => seq![HermesEvent::UnmapBar { window }],
        }) + bars_release(bars, (count - 1) as nat)
    }
}

pub open spec fn domain_release<B: HermesPlatform>(domain: Option<B::Domain>) -> Seq<
    HermesEvent<B>,
> {
    match domain {
        None => Seq::empty(),
        Some(domain) => seq![HermesEvent::ReleaseDomain { domain }],
    }
}

/// The release of all that a lease holds, each once, in the reverse of the order in
/// which it was taken.
pub open spec fn release_events<B: HermesPlatform>(lease: LeaseView<B>) -> Seq<HermesEvent<B>> {
    region_release::<B>(lease.event_ring) + region_release::<B>(lease.command_ring)
        + region_release::<B>(lease.firmware) + bars_release::<B>(lease.bars, 6) + domain_release::<
        B,
    >(lease.domain)
}

fn release_region<B: HermesPlatform>(
    region: Option<DmaRegion<B::Dma>>,
    trace: &mut HermesTrace<B>,
)
    ensures
        final(trace).follows(*old(trace)),
        final(trace).log() == old(trace).log() + region_release::<B>(region),
{
    match region {
        None => {
            assert(trace.log() =~= old(trace).log() + region_release::<B>(region));
        },
        Some(held) => {
            trace.release_dma(held);
            assert(trace.log() =~= old(trace).log() + region_release::<B>(region));
        },
    }
}

impl<B: HermesPlatform> HermesLease<B> {
    /// Releases all that is held.
    pub fn release(&mut self, trace: &mut HermesTrace<B>)
        ensures
            final(self).holds_nothing(),
            final(trace).follows(*old(trace)),
            final(trace).log() == old(trace).log() + release_events(old(self)@),
    {
        let ghost held = self@;
        let ghost start = trace.log();
        release_region(self.event_ring, trace);
        self.event_ring = None;
        release_region(self.command_ring, trace);
        self.command_ring = None;
        release_region(self.firmware, trace);
        self.firmware = None;
        let ghost regions = trace.log();
        let mut remaining: usize = 6;
        while remaining > 0
            invariant
                remaining <= 6,
                held.bars.len() == 6,
                trace.follows(*old(trace)),
                self.event_ring is None,
                self.command_ring is None,
                self.firmware is None,
                self.domain == held.domain,
                forall|i: int| 0 <= i < remaining ==> #[trigger] self.bars@[i] == held.bars[i],
                forall|i: int| remaining <= i < 6 ==> #[trigger] self.bars@[i] is None,
                trace.log() + bars_release::<B>(held.bars, remaining as nat) == regions
                    + bars_release::<B>(held.bars, 6),
            decreases remaining,
        {
            let ghost before = trace.log();
            remaining = remaining - 1;
            let slot = self.bars[remaining];
            match slot {
                None => {},
                Some(window) => {
                    trace.unmap_bar(window);
                    self.bars[remaining] = None;
                },
            }
            assert(trace.log() + bars_release::<B>(held.bars, remaining as nat) =~= before
                + bars_release::<B>(held.bars, (remaining + 1) as nat));
        }
        assert(trace.log() =~= trace.log() + bars_release::<B>(held.bars, 0));
        let ghost unmapped = trace.log();
        match self.domain {
            None => {},
            Some(domain) => {
                trace.release_domain(domain);
                self.domain = None;
            },
        }
        assert(trace.log() =~= unmapped + domain_release::<B>(held.domain));
        assert(trace.log() =~= start + release_events(held));
    }
}

pub open spec fn isolate_at<B: HermesPlatform>(
    identity: HermesPciIdentity,
    log: Seq<HermesEvent<B>>,
    at: int,
) -> Option<Result<B::Domain, HermesFault>> {
    if 0 <= at < log.len() {
        match log[at] {
            HermesEvent::Isolate { identity: of, reply } => if of == identity {
                Some(reply)
            } else {
                None
            },
            _ => None,
        }
    } else {
        None
    }
}

pub open spec fn map_at<B: HermesPlatform>(
    domain: B::Domain,
    bar: int,
    minimum_length: u64,
    log: Seq<HermesEvent<B>>,
    at: int,
) -> Option<Result<MmioWindow<B::Mmio>, HermesFault>> {
    if 0 <= at < log.len() {
        match log[at] {
            HermesEvent::MapBar {
                domain: within,
                bar: index,
                minimum_length: length,
                reply,
            } => if within == domain && index == bar && length == minimum_length {
                Some(reply)
            } else {
                None
            },
            _ => None,
        }
    } else {
        None
    }
}

pub open spec fn allocate_at<B: HermesPlatform>(
    domain: B::Domain,
    length: usize,
    alignment: usize,
    purpose: DmaPurpose,
    log: Seq<HermesEvent<B>>,
    at: int,
) -> Option<Result<DmaRegion<B::Dma>, HermesFault>> {
    if 0 <= at < log.len() {
        match log[at] {
            HermesEvent::Allocate {
                domain: within,
                length: extent,
                alignment: step,
                purpose: use_of,
                reply,
            } => if within == domain && extent == length && step == alignment && use_of
                == purpose {
                Some(reply)
            } else {
                None
            },
            _ => None,
        }
    } else {
        None
    }
}

pub open spec fn authenticate_at<B: HermesPlatform>(
    identity: HermesPciIdentity,
    evidence: HermesProbeEvidence,
    profile: HermesTransportProfile,
    image: ImageShape,
    log: Seq<HermesEvent<B>>,
    at: int,
) -> Option<Result<FirmwareSeal, HermesFault>> {
    if 0 <= at < log.len() {
        match log[at] {
            HermesEvent::Authenticate {
                identity: of,
                evidence: measured,
                profile: spoken,
                image: shown,
                reply,
            } => if of == identity && measured == evidence && spoken == profile && shown == image {
                Some(reply)
            } else {
                None
            },
            _ => None,
        }
    } else {
        None
    }
}

pub open spec fn reset_at<B: HermesPlatform>(
    profile: HermesTransportProfile,
    epoch: u32,
    log: Seq<HermesEvent<B>>,
    at: int,
) -> Option<(Result<(), HermesFault>, int)> {
    if 0 <= at < log.len() {
        match log[at] {
            HermesEvent::Reset { profile: spoken, epoch: start, reply } => if spoken == profile
                && start == epoch {
                Some((reply, at + 1))
            } else {
                None
            },
            _ => None,
        }
    } else {
        None
    }
}

/// The BARs from one on, each mapped where the profile asks for it. A window is
/// held before its length is looked at.
pub open spec fn bars_run<B: HermesPlatform>(
    profile: HermesTransportProfile,
    evidence: HermesProbeEvidence,
    domain: B::Domain,
    bar: nat,
    lease: LeaseView<B>,
    log: Seq<HermesEvent<B>>,
    at: int,
) -> Option<(Result<(), HermesFault>, LeaseView<B>, int)>
    decreases 6 - bar,
{
    if bar >= 6 {
        Some((Ok(()), lease, at))
    } else {
        let required = profile.required_bar_lengths[bar as int];
        if required == 0 {
            bars_run(profile, evidence, domain, bar + 1, lease, log, at)
        } else if evidence.bar_lengths[bar as int] < required {
            Some((Err(HermesFault::BarUnavailable), lease, at))
        } else {
            match map_at(domain, bar as int, required, log, at) {
                None => None,
                Some(Err(fault)) => Some((Err(fault), lease, at + 1)),
                Some(Ok(window)) => {
                    let held = LeaseView {
                        bars: lease.bars.update(bar as int, Some(window)),
                        ..lease
                    };
                    if window.length < required {
                        Some((Err(HermesFault::BarUnavailable), held, at + 1))
                    } else {
                        bars_run(profile, evidence, domain, bar + 1, held, log, at + 1)
                    }
                },
            }
        }
    }
}

/// The firmware loaded into a region of its own: the region, and the seal of what it
/// holds.
pub open spec fn load_run<B: HermesPlatform>(
    identity: HermesPciIdentity,
    evidence: HermesProbeEvidence,
    profile: HermesTransportProfile,
    domain: B::Domain,
    image: Option<FirmwareImage>,
    log: Seq<HermesEvent<B>>,
    at: int,
) -> Option<
    (Result<(), HermesFault>, Option<DmaRegion<B::Dma>>, Option<FirmwareSeal>, int),
> {
    match image {
        None => if profile.firmware_minimum_bytes != 0 {
            Some((Err(HermesFault::FirmwareMissing), None, None, at))
        } else {
            Some((Ok(()), None, None, at))
        },
        Some(image) => match crate::hermes_gsp::firmware_fault(&profile, &image) {
            Some(fault) => Some((Err(fault), None, None, at)),
            None => match authenticate_at(
                identity,
                evidence,
                profile,
                crate::hermes_trace::image_shape(&image),
                log,
                at,
            ) {
                None => None,
                Some(Err(fault)) => Some((Err(fault), None, None, at + 1)),
                Some(Ok(seal)) => if seal.manifest_hash@ != image.manifest_hash@ || seal.version
                    != image.version {
                    Some((Err(HermesFault::FirmwareRejected), None, None, at + 1))
                } else {
                    let length = image.bytes@.len() as usize;
                    let alignment = profile.firmware_alignment as usize;
                    match allocate_at(
                        domain,
                        length,
                        alignment,
                        DmaPurpose::Firmware,
                        log,
                        at + 1,
                    ) {
                        None => None,
                        Some(Err(fault)) => Some((Err(fault), None, None, at + 2)),
                        Some(Ok(region)) => match validate_dma_region(region, length, alignment) {
                            Err(fault) => Some((Err(fault), Some(region), None, at + 2)),
                            Ok(_) => match dma_write_at(region, 0, image.bytes@, log, at + 2) {
                                None => None,
                                Some((Err(fault), next)) => Some(
                                    (Err(fault), Some(region), None, next),
                                ),
                                Some((Ok(_), next)) => match publish_at(
                                    region,
                                    0,
                                    length,
                                    log,
                                    next,
                                ) {
                                    None => None,
                                    Some((Err(fault), end)) => Some(
                                        (Err(fault), Some(region), None, end),
                                    ),
                                    Some((Ok(_), end)) => Some(
                                        (Ok(()), Some(region), Some(seal), end),
                                    ),
                                },
                            },
                        },
                    }
                },
            },
        },
    }
}

/// A region zeroed from an offset on and published.
pub open spec fn zero_run<B: HermesPlatform>(
    region: DmaRegion<B::Dma>,
    offset: nat,
    log: Seq<HermesEvent<B>>,
    at: int,
) -> Option<(Result<(), HermesFault>, int)>
    decreases region.length - offset,
{
    if offset >= region.length {
        publish_at(region, 0, region.length, log, at)
    } else {
        let count: nat = if region.length - offset < 128 {
            (region.length - offset) as nat
        } else {
            128
        };
        match dma_write_at(region, offset as usize, zeroed(count), log, at) {
            Some((Ok(_), next)) => zero_run(region, offset + count, log, next),
            other => other,
        }
    }
}

/// A ring allocated, looked at and zeroed.
pub open spec fn ring_run<B: HermesPlatform>(
    domain: B::Domain,
    bytes: usize,
    purpose: DmaPurpose,
    log: Seq<HermesEvent<B>>,
    at: int,
) -> Option<(Result<(), HermesFault>, Option<DmaRegion<B::Dma>>, int)> {
    match allocate_at(domain, bytes, DMA_GRANULE, purpose, log, at) {
        None => None,
        Some(Err(fault)) => Some((Err(fault), None, at + 1)),
        Some(Ok(region)) => match validate_dma_region(region, bytes, DMA_GRANULE) {
            Err(fault) => Some((Err(fault), Some(region), at + 1)),
            Ok(_) => match zero_run(region, 0, log, at + 1) {
                None => None,
                Some((result, next)) => Some((result, Some(region), next)),
            },
        },
    }
}

/// The rings of a transport, and the reset of its personality.
pub open spec fn rings_run<B: HermesPlatform>(
    profile: HermesTransportProfile,
    epoch: u32,
    domain: B::Domain,
    lease: LeaseView<B>,
    log: Seq<HermesEvent<B>>,
    at: int,
) -> Option<(Result<(), HermesFault>, LeaseView<B>, int)> {
    let command_bytes = (profile.command_depth * profile.command_slot_bytes) as usize;
    let event_bytes = (profile.event_depth * profile.event_slot_bytes) as usize;
    match ring_run(domain, command_bytes, DmaPurpose::CommandRing, log, at) {
        None => None,
        Some((Err(fault), ring, next)) => Some(
            (
                Err(fault),
                if ring is Some {
                    LeaseView { command_ring: ring, ..lease }
                } else {
                    lease
                },
                next,
            ),
        ),
        Some((Ok(_), ring, next)) => {
            let commanded = LeaseView { command_ring: ring, ..lease };
            match ring_run(domain, event_bytes, DmaPurpose::EventRing, log, next) {
                None => None,
                Some((Err(fault), ring, then)) => Some(
                    (
                        Err(fault),
                        if ring is Some {
                            LeaseView { event_ring: ring, ..commanded }
                        } else {
                            commanded
                        },
                        then,
                    ),
                ),
                Some((Ok(_), ring, then)) => match reset_at(profile, epoch, log, then) {
                    None => None,
                    Some((result, end)) => Some(
                        (result, LeaseView { event_ring: ring, ..commanded }, end),
                    ),
                },
            }
        },
    }
}

/// All that staging takes: a domain, BARs, firmware and rings. What was taken by a
/// staging that fails is in the lease that comes with the fault.
pub open spec fn acquire_run<B: HermesPlatform>(
    identity: HermesPciIdentity,
    evidence: HermesProbeEvidence,
    profile: HermesTransportProfile,
    epoch: u32,
    image: Option<FirmwareImage>,
    lease: LeaseView<B>,
    seal: Option<FirmwareSeal>,
    log: Seq<HermesEvent<B>>,
    at: int,
) -> Option<(Result<(), HermesFault>, LeaseView<B>, Option<FirmwareSeal>, int)> {
    match isolate_at(identity, log, at) {
        None => None,
        Some(Err(_)) => Some((Err(HermesFault::DeviceIsolation), lease, seal, at + 1)),
        Some(Ok(domain)) => match bars_run(
            profile,
            evidence,
            domain,
            0,
            LeaseView { domain: Some(domain), ..lease },
            log,
            at + 1,
        ) {
            None => None,
            Some((Err(fault), held, next)) => Some((Err(fault), held, seal, next)),
            Some((Ok(_), held, next)) => match load_run(
                identity,
                evidence,
                profile,
                domain,
                image,
                log,
                next,
            ) {
                None => None,
                Some((result, region, sealed, then)) => {
                    let loaded = if region is Some {
                        LeaseView { firmware: region, ..held }
                    } else {
                        held
                    };
                    let proven = if sealed is Some {
                        sealed
                    } else {
                        seal
                    };
                    match result {
                        Err(fault) => Some((Err(fault), loaded, proven, then)),
                        Ok(_) => match rings_run(profile, epoch, domain, loaded, log, then) {
                            None => None,
                            Some((outcome, full, end)) => Some((outcome, full, proven, end)),
                        },
                    }
                },
            },
        },
    }
}

fn zero_dma<B: HermesPlatform>(region: DmaRegion<B::Dma>, trace: &mut HermesTrace<B>) -> (result:
    Result<(), HermesFault>)
    ensures
        final(trace).follows(*old(trace)),
        forall|log: Seq<HermesEvent<B>>| #[trigger]
            crate::trace::continues(log, final(trace).log()) ==> zero_run(
                region,
                0,
                log,
                old(trace).log().len() as int,
            ) == Some((result, final(trace).log().len() as int)),
{
    let ghost start = trace.log().len() as int;
    let mut offset: usize = 0;
    while offset < region.length
        invariant
            offset <= region.length,
            start == old(trace).log().len(),
            trace.follows(*old(trace)),
            forall|log: Seq<HermesEvent<B>>| #[trigger]
                crate::trace::continues(log, trace.log()) ==> zero_run(region, 0, log, start)
                    == zero_run(region, offset as nat, log, trace.log().len() as int),
        decreases region.length - offset,
    {
        let count: usize = if region.length - offset < 128 {
            region.length - offset
        } else {
            128
        };
        let blank = zeroes(count);
        let ghost head = trace.log();
        let reply = trace.dma_write(region, offset, blank.as_slice());
        assert(trace.log()[head.len() as int] == HermesEvent::<B>::DmaWrite {
            region,
            offset,
            bytes: zeroed(count as nat),
            reply,
        });
        match reply {
            Err(fault) => {
                return Err(fault);
            },
            Ok(_) => {},
        }
        offset = offset + count;
    }
    let ghost head = trace.log();
    let reply = trace.publish(region, 0, region.length);
    assert(trace.log()[head.len() as int] == HermesEvent::<B>::Publish {
        region,
        offset: 0,
        length: region.length,
        reply,
    });
    reply
}

fn take_ring<B: HermesPlatform>(
    domain: B::Domain,
    bytes: usize,
    purpose: DmaPurpose,
    trace: &mut HermesTrace<B>,
) -> (outcome: (Result<(), HermesFault>, Option<DmaRegion<B::Dma>>))
    ensures
        final(trace).follows(*old(trace)),
        forall|log: Seq<HermesEvent<B>>| #[trigger]
            crate::trace::continues(log, final(trace).log()) ==> ring_run(
                domain,
                bytes,
                purpose,
                log,
                old(trace).log().len() as int,
            ) == Some((outcome.0, outcome.1, final(trace).log().len() as int)),
{
    let reply = trace.allocate(domain, bytes, DMA_GRANULE, purpose);
    assert(trace.log()[old(trace).log().len() as int] == HermesEvent::<B>::Allocate {
        domain,
        length: bytes,
        alignment: DMA_GRANULE,
        purpose,
        reply,
    });
    let region = match reply {
        Err(fault) => {
            return (Err(fault), None);
        },
        Ok(region) => region,
    };
    match validate_dma_region(region, bytes, DMA_GRANULE) {
        Err(fault) => {
            return (Err(fault), Some(region));
        },
        Ok(_) => {},
    }
    (zero_dma(region, trace), Some(region))
}

impl<
    'a,
    B: HermesPlatform,
    C: HermesCodec,
    S: HermesService,
    State,
    const PENDING: usize,
> Hermes<'a, B, C, S, State, PENDING> {
    /// The same transport but for what it holds of its platform.
    pub open spec fn same_but_lease(&self, other: &Self) -> bool {
        &&& self.codec == other.codec
        &&& self.identity == other.identity
        &&& self.evidence == other.evidence
        &&& self.profile == other.profile
        &&& self.compatibility_proof == other.compatibility_proof
        &&& self.runtime == other.runtime
    }

    /// The same transport in another state.
    pub open spec fn same_transport<Other>(
        &self,
        other: &Hermes<'a, B, C, S, Other, PENDING>,
    ) -> bool {
        &&& self.codec == other.codec
        &&& self.identity == other.identity
        &&& self.evidence == other.evidence
        &&& self.profile == other.profile
        &&& self.compatibility_proof == other.compatibility_proof
        &&& self.firmware_seal == other.firmware_seal
        &&& self.lease == other.lease
        &&& self.runtime == other.runtime
    }

    fn into_state<Next>(self) -> (next: Hermes<'a, B, C, S, Next, PENDING>)
        ensures
            self.same_transport(&next),
    {
        Hermes {
            codec: self.codec,
            identity: self.identity,
            evidence: self.evidence,
            profile: self.profile,
            compatibility_proof: self.compatibility_proof,
            firmware_seal: self.firmware_seal,
            lease: self.lease,
            runtime: self.runtime,
            state: PhantomData,
        }
    }

    /// Gives up a transport, and gives back all that it holds.
    pub fn shutdown(self, trace: &mut HermesTrace<B>)
        ensures
            final(trace).follows(*old(trace)),
            final(trace).log() == old(trace).log() + release_events(self.lease@),
    {
        let mut lease = self.lease;
        lease.release(trace);
    }

    fn take_bars(&mut self, domain: B::Domain, trace: &mut HermesTrace<B>) -> (result: Result<
        (),
        HermesFault,
    >)
        ensures
            final(self).same_but_lease(old(self)),
            final(self).firmware_seal == old(self).firmware_seal,
            final(trace).follows(*old(trace)),
            forall|log: Seq<HermesEvent<B>>| #[trigger]
                crate::trace::continues(log, final(trace).log()) ==> bars_run(
                    old(self).profile,
                    old(self).evidence,
                    domain,
                    0,
                    old(self).lease@,
                    log,
                    old(trace).log().len() as int,
                ) == Some((result, final(self).lease@, final(trace).log().len() as int)),
    {
        let ghost start = trace.log().len() as int;
        let mut bar: usize = 0;
        while bar < 6
            invariant
                bar <= 6,
                self.same_but_lease(old(self)),
                self.firmware_seal == old(self).firmware_seal,
                start == old(trace).log().len(),
                trace.follows(*old(trace)),
                forall|log: Seq<HermesEvent<B>>| #[trigger]
                    crate::trace::continues(log, trace.log()) ==> bars_run(
                        old(self).profile,
                        old(self).evidence,
                        domain,
                        0,
                        old(self).lease@,
                        log,
                        start,
                    ) == bars_run(
                        old(self).profile,
                        old(self).evidence,
                        domain,
                        bar as nat,
                        self.lease@,
                        log,
                        trace.log().len() as int,
                    ),
            decreases 6 - bar,
        {
            let required: u64 = self.profile.required_bar_lengths[bar];
            if required != 0 {
                if self.evidence.bar_lengths[bar] < required {
                    return Err(HermesFault::BarUnavailable);
                }
                let ghost head = trace.log();
                let ghost held = self.lease@;
                let reply = trace.map_bar(domain, bar as u8, required);
                assert(trace.log()[head.len() as int] == HermesEvent::<B>::MapBar {
                    domain,
                    bar: bar as u8,
                    minimum_length: required,
                    reply,
                });
                let window = match reply {
                    Err(fault) => {
                        return Err(fault);
                    },
                    Ok(window) => window,
                };
                self.lease.bars[bar] = Some(window);
                assert(self.lease@ =~= (LeaseView {
                    bars: held.bars.update(bar as int, Some(window)),
                    ..held
                }));
                if window.length < required {
                    return Err(HermesFault::BarUnavailable);
                }
            }
            bar = bar + 1;
        }
        Ok(())
    }

    fn load_firmware<F: FirmwareAuthority>(
        &mut self,
        domain: B::Domain,
        firmware: Option<FirmwareImage>,
        authority: &F,
        trace: &mut HermesTrace<B>,
    ) -> (result: Result<(), HermesFault>)
        ensures
            final(self).same_but_lease(old(self)),
            final(trace).follows_vouched(*old(trace), *old(self).codec, *authority),
            forall|log: Seq<HermesEvent<B>>| #[trigger]
                crate::trace::continues(log, final(trace).log()) ==> match load_run(
                    old(self).identity,
                    old(self).evidence,
                    old(self).profile,
                    domain,
                    firmware,
                    log,
                    old(trace).log().len() as int,
                ) {
                    None => false,
                    Some((outcome, region, seal, next)) => {
                        &&& outcome == result
                        &&& next == final(trace).log().len()
                        &&& final(self).lease@ == (if region is Some {
                            LeaseView { firmware: region, ..old(self).lease@ }
                        } else {
                            old(self).lease@
                        })
                        &&& final(self).firmware_seal == (if seal is Some {
                            seal
                        } else {
                            old(self).firmware_seal
                        })
                    },
                },
    {
        let image = match firmware {
            None => {
                return if self.profile.firmware_minimum_bytes != 0 {
                    Err(HermesFault::FirmwareMissing)
                } else {
                    Ok(())
                };
            },
            Some(image) => image,
        };
        match validate_firmware(&self.profile, &image) {
            Err(fault) => {
                return Err(fault);
            },
            Ok(_) => {},
        }
        let ghost unasked = *trace;
        let authenticated = trace.authenticate(
            authority,
            &self.identity,
            &self.evidence,
            &self.profile,
            &image,
        );
        proof {
            crate::hermes_trace::lemma_asked_authority(
                unasked,
                *trace,
                *self.codec,
                *authority,
                trace.log().last(),
            );
        }
        let ghost shown = trace.log();
        assert(shown[old(trace).log().len() as int] == HermesEvent::<B>::Authenticate {
            identity: self.identity,
            evidence: self.evidence,
            profile: self.profile,
            image: crate::hermes_trace::image_shape(&image),
            reply: authenticated,
        });
        let seal = match authenticated {
            Err(fault) => {
                return Err(fault);
            },
            Ok(seal) => seal,
        };
        if !crate::hermes_gsp::hashes_agree(&seal.manifest_hash, &image.manifest_hash)
            || seal.version != image.version {
            return Err(HermesFault::FirmwareRejected);
        }
        let alignment: usize = self.profile.firmware_alignment as usize;
        let length: usize = image.bytes.len();
        let allocated = trace.allocate(domain, length, alignment, DmaPurpose::Firmware);
        let ghost taken = trace.log();
        assert(taken[shown.len() as int] == HermesEvent::<B>::Allocate {
            domain,
            length,
            alignment,
            purpose: DmaPurpose::Firmware,
            reply: allocated,
        });
        let region = match allocated {
            Err(fault) => {
                return Err(fault);
            },
            Ok(region) => region,
        };
        self.lease.firmware = Some(region);
        assert(alignment > 0);
        match validate_dma_region(region, length, alignment) {
            Err(fault) => {
                return Err(fault);
            },
            Ok(_) => {},
        }
        let written = trace.dma_write(region, 0, image.bytes);
        let ghost filled = trace.log();
        assert(filled[taken.len() as int] == HermesEvent::<B>::DmaWrite {
            region,
            offset: 0,
            bytes: image.bytes@,
            reply: written,
        });
        match written {
            Err(fault) => {
                return Err(fault);
            },
            Ok(_) => {},
        }
        let published = trace.publish(region, 0, length);
        assert(trace.log()[filled.len() as int] == HermesEvent::<B>::Publish {
            region,
            offset: 0,
            length,
            reply: published,
        });
        match published {
            Err(fault) => {
                return Err(fault);
            },
            Ok(_) => {},
        }
        self.firmware_seal = Some(seal);
        Ok(())
    }

    fn take_rings(&mut self, domain: B::Domain, trace: &mut HermesTrace<B>) -> (result: Result<
        (),
        HermesFault,
    >)
        requires
            old(self).wf(),
        ensures
            final(self).same_but_lease(old(self)),
            final(self).firmware_seal == old(self).firmware_seal,
            final(trace).follows_with(*old(trace), *old(self).codec),
            forall|log: Seq<HermesEvent<B>>| #[trigger]
                crate::trace::continues(log, final(trace).log()) ==> rings_run(
                    old(self).profile,
                    old(self).runtime.epoch,
                    domain,
                    old(self).lease@,
                    log,
                    old(trace).log().len() as int,
                ) == Some((result, final(self).lease@, final(trace).log().len() as int)),
    {
        let command_bytes: usize = match ring_bytes(
            self.profile.command_depth,
            self.profile.command_slot_bytes,
        ) {
            Err(fault) => {
                return Err(fault);
            },
            Ok(bytes) => bytes,
        };
        let event_bytes: usize = match ring_bytes(
            self.profile.event_depth,
            self.profile.event_slot_bytes,
        ) {
            Err(fault) => {
                return Err(fault);
            },
            Ok(bytes) => bytes,
        };
        let (commands, command_ring) = take_ring(
            domain,
            command_bytes,
            DmaPurpose::CommandRing,
            trace,
        );
        if command_ring.is_some() {
            self.lease.command_ring = command_ring;
        }
        match commands {
            Err(fault) => {
                return Err(fault);
            },
            Ok(_) => {},
        }
        let ghost middle = trace.log();
        assert(crate::trace::continues(middle, middle));
        let (events, event_ring) = take_ring(domain, event_bytes, DmaPurpose::EventRing, trace);
        if event_ring.is_some() {
            self.lease.event_ring = event_ring;
        }
        match events {
            Err(fault) => {
                return Err(fault);
            },
            Ok(_) => {},
        }
        let ghost head = trace.log();
        assert(crate::trace::continues(head, head));
        let reply = trace.reset(self.codec, &self.profile, self.runtime.epoch);
        assert(trace.log()[head.len() as int] == HermesEvent::<B>::Reset {
            profile: self.profile,
            epoch: self.runtime.epoch,
            reply,
        });
        reply
    }

    fn acquire<F: FirmwareAuthority>(
        &mut self,
        firmware: Option<FirmwareImage>,
        authority: &F,
        trace: &mut HermesTrace<B>,
    ) -> (result: Result<(), HermesFault>)
        requires
            old(self).wf(),
        ensures
            final(self).same_but_lease(old(self)),
            final(trace).follows_vouched(*old(trace), *old(self).codec, *authority),
            forall|log: Seq<HermesEvent<B>>| #[trigger]
                crate::trace::continues(log, final(trace).log()) ==> acquire_run(
                    old(self).identity,
                    old(self).evidence,
                    old(self).profile,
                    old(self).runtime.epoch,
                    firmware,
                    old(self).lease@,
                    old(self).firmware_seal,
                    log,
                    old(trace).log().len() as int,
                ) == Some(
                    (
                        result,
                        final(self).lease@,
                        final(self).firmware_seal,
                        final(trace).log().len() as int,
                    ),
                ),
    {
        let isolated = trace.isolate(self.identity);
        assert(trace.log()[old(trace).log().len() as int] == HermesEvent::<B>::Isolate {
            identity: self.identity,
            reply: isolated,
        });
        let domain = match isolated {
            Err(_) => {
                return Err(HermesFault::DeviceIsolation);
            },
            Ok(domain) => domain,
        };
        self.lease.domain = Some(domain);
        match self.take_bars(domain, trace) {
            Err(fault) => {
                return Err(fault);
            },
            Ok(_) => {},
        }
        match self.load_firmware(domain, firmware, authority, trace) {
            Err(fault) => {
                return Err(fault);
            },
            Ok(_) => {},
        }
        self.take_rings(domain, trace)
    }
}

impl<
    'a,
    B: HermesPlatform,
    C: HermesCodec,
    S: HermesService,
    const PENDING: usize,
> Hermes<'a, B, C, S, Profiled, PENDING> {
    /// Takes a domain, BARs, firmware and rings, or gives back whatever was taken.
    pub fn stage<F: FirmwareAuthority>(
        self,
        firmware: Option<FirmwareImage>,
        authority: &F,
        trace: &mut HermesTrace<B>,
    ) -> (result: Result<Hermes<'a, B, C, S, Staged, PENDING>, HermesFault>)
        requires
            self.wf(),
        ensures
            final(trace).follows_vouched(*old(trace), *self.codec, *authority),
            forall|log: Seq<HermesEvent<B>>| #[trigger]
                crate::trace::continues(log, final(trace).log()) ==> match acquire_run(
                    self.identity,
                    self.evidence,
                    self.profile,
                    self.runtime.epoch,
                    firmware,
                    self.lease@,
                    self.firmware_seal,
                    log,
                    old(trace).log().len() as int,
                ) {
                    None => false,
                    Some((Ok(_), lease, seal, end)) => {
                        &&& result matches Ok(staged)
                        &&& end == final(trace).log().len()
                        &&& staged.wf()
                        &&& staged.codec == self.codec
                        &&& staged.identity == self.identity
                        &&& staged.evidence == self.evidence
                        &&& staged.profile == self.profile
                        &&& staged.compatibility_proof == self.compatibility_proof
                        &&& staged.runtime == self.runtime
                        &&& staged.lease@ == lease
                        &&& staged.firmware_seal == seal
                    },
                    Some((Err(fault), lease, _, end)) => {
                        &&& result matches Err(reported)
                        &&& reported == fault
                        &&& 0 <= end <= final(trace).log().len()
                        &&& final(trace).log().skip(end) == release_events(lease)
                    },
                },
    {
        let mut hermes = self;
        match hermes.acquire(firmware, authority, trace) {
            Err(fault) => {
                let ghost taken = trace.log();
                let ghost held = hermes.lease@;
                hermes.lease.release(trace);
                assert(crate::trace::continues(trace.log(), taken));
                assert(trace.log().skip(taken.len() as int) =~= release_events(held));
                Err(fault)
            },
            Ok(_) => Ok(hermes.into_state()),
        }
    }
}

/// The reply that a negotiation waits for, by the transcript.
pub open spec fn await_run<B: HermesPlatform>(
    profile: HermesTransportProfile,
    lease: HermesLease<B>,
    runtime: RuntimeView,
    deadline_tick: u64,
    spins: nat,
    log: Seq<HermesEvent<B>>,
    at: int,
) -> Option<(Result<HermesNormalizedEvent, HermesFault>, RuntimeView, int)>
    decreases spins,
{
    if spins == 0 {
        Some((Err(HermesFault::BootFuelExhausted), runtime, at))
    } else {
        match now_at(log, at) {
            None => None,
            Some(now) => if tick_reached(now, deadline_tick) {
                Some((Err(HermesFault::DeadlineExpired), runtime, at + 1))
            } else {
                match receive_run(profile, lease, runtime, log, at + 1) {
                    None => None,
                    Some((Err(fault), after, next)) => Some((Err(fault), after, next)),
                    Some((Ok(Some(event)), after, next)) => Some((Ok(event), after, next)),
                    Some((Ok(None), after, next)) => if !relaxed_at(log, next) {
                        None
                    } else {
                        await_run(
                            profile,
                            lease,
                            after,
                            deadline_tick,
                            (spins - 1) as nat,
                            log,
                            next + 1,
                        )
                    },
                }
            },
        }
    }
}

/// What a transport offers to speak.
#[verifier::allow_in_spec]
pub fn offered_wire(profile: &HermesTransportProfile) -> u64
    returns
        (((profile.wire_major as u64) << 32) | ((profile.wire_minor_minimum as u64) << 16)
            | profile.wire_minor_maximum as u64),
{
    ((profile.wire_major as u64) << 32) | ((profile.wire_minor_minimum as u64) << 16)
        | profile.wire_minor_maximum as u64
}

/// What is wrong with the answer to a negotiation first.
#[verifier::allow_in_spec]
pub fn negotiation_fault(
    profile: &HermesTransportProfile,
    correlation: (u32, u32),
    event: &HermesNormalizedEvent,
) -> Option<HermesFault>
    returns
        ({
            let major = #[verifier::truncate] ((event.arguments[1] >> 32) as u16);
            let minor = #[verifier::truncate] (event.arguments[1] as u16);
            if event.event_kind == HERMES_EVENT_FAULT {
                Some(HermesFault::DeviceFault)
            } else if event.event_kind != HERMES_EVENT_REPLY || event.correlation_epoch
                != correlation.0 || event.correlation_sequence != correlation.1 || event.opcode
                != HERMES_OPCODE_NEGOTIATE || event.status != 0 {
                Some(HermesFault::ProtocolMismatch)
            } else if major != profile.wire_major || minor < profile.wire_minor_minimum || minor
                > profile.wire_minor_maximum {
                Some(HermesFault::ProtocolMismatch)
            } else if event.arguments[0] & profile.required_features != profile.required_features {
                Some(HermesFault::RequiredFeatureMissing)
            } else {
                None::<HermesFault>
            }
        }),
{
    if event.event_kind == HERMES_EVENT_FAULT {
        return Some(HermesFault::DeviceFault);
    }
    if event.event_kind != HERMES_EVENT_REPLY || event.correlation_epoch != correlation.0
        || event.correlation_sequence != correlation.1 || event.opcode != HERMES_OPCODE_NEGOTIATE
        || event.status != 0 {
        return Some(HermesFault::ProtocolMismatch);
    }
    let major: u16 = #[verifier::truncate] ((event.arguments[1] >> 32) as u16);
    let minor: u16 = #[verifier::truncate] (event.arguments[1] as u16);
    if major != profile.wire_major || minor < profile.wire_minor_minimum || minor
        > profile.wire_minor_maximum {
        return Some(HermesFault::ProtocolMismatch);
    }
    if event.arguments[0] & profile.required_features != profile.required_features {
        return Some(HermesFault::RequiredFeatureMissing);
    }
    None
}

/// A boot stage after what went well.
pub open spec fn then_stage<B: HermesPlatform>(
    earlier: Option<(Result<(), HermesFault>, int)>,
    identity: HermesPciIdentity,
    evidence: HermesProbeEvidence,
    profile: HermesTransportProfile,
    lease: HermesLease<B>,
    stage: u32,
    deadline_tick: u64,
    log: Seq<HermesEvent<B>>,
) -> Option<(Result<(), HermesFault>, int)> {
    match earlier {
        Some((Ok(_), next)) => stage_run(
            identity,
            evidence,
            profile,
            lease,
            stage,
            deadline_tick,
            log,
            next,
        ),
        other => other,
    }
}

/// The boot of a staged transport: firmware, queues, ignition, readiness and the
/// personality's own negotiation.
pub open spec fn boot_run<B: HermesPlatform>(
    identity: HermesPciIdentity,
    evidence: HermesProbeEvidence,
    profile: HermesTransportProfile,
    lease: HermesLease<B>,
    deadline_tick: u64,
    log: Seq<HermesEvent<B>>,
    at: int,
) -> Option<(Result<(), HermesFault>, int)> {
    let firmware = stage_run(
        identity,
        evidence,
        profile,
        lease,
        HERMES_BOOT_STAGE_FIRMWARE,
        deadline_tick,
        log,
        at,
    );
    let queues = then_stage(
        firmware,
        identity,
        evidence,
        profile,
        lease,
        HERMES_BOOT_STAGE_QUEUES,
        deadline_tick,
        log,
    );
    let ignited = then_stage(
        queues,
        identity,
        evidence,
        profile,
        lease,
        HERMES_BOOT_STAGE_IGNITE,
        deadline_tick,
        log,
    );
    let ready = match ignited {
        Some((Ok(_), next)) => poll_run(
            profile.fault_mask,
            lease,
            profile.control_bar,
            profile.status_offset,
            profile.ready_mask,
            profile.ready_value,
            deadline_tick,
            0,
            log,
            next,
        ),
        other => other,
    };
    then_stage(
        ready,
        identity,
        evidence,
        profile,
        lease,
        HERMES_BOOT_STAGE_NEGOTIATE,
        deadline_tick,
        log,
    )
}

/// The first words with a booted device: what it will speak, and with which
/// features.
pub open spec fn negotiate_run<B: HermesPlatform>(
    profile: HermesTransportProfile,
    lease: HermesLease<B>,
    runtime: RuntimeView,
    deadline_tick: u64,
    log: Seq<HermesEvent<B>>,
    at: int,
) -> Option<(Result<(), HermesFault>, RuntimeView, int)> {
    if runtime.exhausted() {
        Some((Err(HermesFault::CorrelationSpaceExhausted), runtime, at))
    } else {
        let correlation = (runtime.epoch, runtime.next_sequence);
        let command = crate::hermes_abi::shape_with(
            correlation,
            HERMES_OPCODE_NEGOTIATE,
            0,
            0,
            seq![
                profile.required_features | profile.optional_features,
                offered_wire(&profile),
                0u64,
                0u64,
                0u64,
                0u64,
                0u64,
                0u64,
            ],
            Seq::empty(),
            deadline_tick,
        );
        match send_run(profile, lease, runtime.advanced(), command, log, at) {
            None => None,
            Some((Err(fault), after, next)) => Some((Err(fault), after, next)),
            Some((Ok(_), after, next)) => match await_run(
                profile,
                lease,
                after,
                deadline_tick,
                MAXIMUM_WAIT_SPINS as nat,
                log,
                next,
            ) {
                None => None,
                Some((Err(fault), later, end)) => Some((Err(fault), later, end)),
                Some((Ok(event), later, end)) => match negotiation_fault(
                    &profile,
                    correlation,
                    &event,
                ) {
                    Some(fault) => Some((Err(fault), later, end)),
                    None => Some(
                        (
                            Ok(()),
                            RuntimeView { negotiated_features: event.arguments[0], ..later },
                            end,
                        ),
                    ),
                },
            },
        }
    }
}

/// The ignition of a staged transport.
pub open spec fn ignite_run<B: HermesPlatform>(
    identity: HermesPciIdentity,
    evidence: HermesProbeEvidence,
    profile: HermesTransportProfile,
    lease: HermesLease<B>,
    runtime: RuntimeView,
    deadline_tick: u64,
    log: Seq<HermesEvent<B>>,
    at: int,
) -> Option<(Result<(), HermesFault>, RuntimeView, int)> {
    match boot_run(identity, evidence, profile, lease, deadline_tick, log, at) {
        None => None,
        Some((Err(fault), next)) => Some((Err(fault), runtime, next)),
        Some((Ok(_), next)) => negotiate_run(profile, lease, runtime, deadline_tick, log, next),
    }
}

impl<
    'a,
    B: HermesPlatform,
    C: HermesCodec,
    S: HermesService,
    const PENDING: usize,
> Hermes<'a, B, C, S, Staged, PENDING> {
    fn run_stage(&self, stage: u32, deadline_tick: u64, trace: &mut HermesTrace<B>) -> (result:
        Result<(), HermesFault>)
        ensures
            final(trace).follows_with(*old(trace), *self.codec),
            forall|log: Seq<HermesEvent<B>>| #[trigger]
                crate::trace::continues(log, final(trace).log()) ==> stage_run(
                    self.identity,
                    self.evidence,
                    self.profile,
                    self.lease,
                    stage,
                    deadline_tick,
                    log,
                    old(trace).log().len() as int,
                ) == Some((result, final(trace).log().len() as int)),
    {
        self.lease.execute_stage(
            self.codec,
            &self.identity,
            &self.evidence,
            &self.profile,
            stage,
            deadline_tick,
            trace,
        )
    }

    pub fn await_ready(&self, deadline_tick: u64, trace: &mut HermesTrace<B>) -> (result: Result<
        (),
        HermesFault,
    >)
        ensures
            final(trace).follows(*old(trace)),
            forall|log: Seq<HermesEvent<B>>| #[trigger]
                crate::trace::continues(log, final(trace).log()) ==> poll_run(
                    self.profile.fault_mask,
                    self.lease,
                    self.profile.control_bar,
                    self.profile.status_offset,
                    self.profile.ready_mask,
                    self.profile.ready_value,
                    deadline_tick,
                    0,
                    log,
                    old(trace).log().len() as int,
                ) == Some((result, final(trace).log().len() as int)),
    {
        self.lease.poll32(
            self.profile.fault_mask,
            self.profile.control_bar,
            self.profile.status_offset,
            self.profile.ready_mask,
            self.profile.ready_value,
            deadline_tick,
            trace,
        )
    }

    fn boot(&self, deadline_tick: u64, trace: &mut HermesTrace<B>) -> (result: Result<
        (),
        HermesFault,
    >)
        ensures
            final(trace).follows_with(*old(trace), *self.codec),
            forall|log: Seq<HermesEvent<B>>| #[trigger]
                crate::trace::continues(log, final(trace).log()) ==> boot_run(
                    self.identity,
                    self.evidence,
                    self.profile,
                    self.lease,
                    deadline_tick,
                    log,
                    old(trace).log().len() as int,
                ) == Some((result, final(trace).log().len() as int)),
    {
        match self.run_stage(HERMES_BOOT_STAGE_FIRMWARE, deadline_tick, trace) {
            Err(fault) => {
                return Err(fault);
            },
            Ok(_) => {},
        }
        match self.run_stage(HERMES_BOOT_STAGE_QUEUES, deadline_tick, trace) {
            Err(fault) => {
                return Err(fault);
            },
            Ok(_) => {},
        }
        match self.run_stage(HERMES_BOOT_STAGE_IGNITE, deadline_tick, trace) {
            Err(fault) => {
                return Err(fault);
            },
            Ok(_) => {},
        }
        match self.await_ready(deadline_tick, trace) {
            Err(fault) => {
                return Err(fault);
            },
            Ok(_) => {},
        }
        self.run_stage(HERMES_BOOT_STAGE_NEGOTIATE, deadline_tick, trace)
    }

    fn await_event(&mut self, deadline_tick: u64, trace: &mut HermesTrace<B>) -> (result: Result<
        HermesNormalizedEvent,
        HermesFault,
    >)
        requires
            old(self).wf(),
        ensures
            final(self).wf(),
            final(self).same_but_runtime(old(self)),
            final(self).runtime.service == old(self).runtime.service,
            final(trace).follows_with(*old(trace), *old(self).codec),
            forall|log: Seq<HermesEvent<B>>| #[trigger]
                crate::trace::continues(log, final(trace).log()) ==> await_run(
                    old(self).profile,
                    old(self).lease,
                    old(self).runtime@,
                    deadline_tick,
                    MAXIMUM_WAIT_SPINS as nat,
                    log,
                    old(trace).log().len() as int,
                ) == Some((result, final(self).runtime@, final(trace).log().len() as int)),
    {
        let ghost start = trace.log().len() as int;
        let mut spins: u64 = MAXIMUM_WAIT_SPINS;
        while spins > 0
            invariant
                self.wf(),
                self.same_but_runtime(old(self)),
                start == old(trace).log().len(),
                self.runtime.service == old(self).runtime.service,
                trace.follows_with(*old(trace), *old(self).codec),
                forall|log: Seq<HermesEvent<B>>| #[trigger]
                    crate::trace::continues(log, trace.log()) ==> await_run(
                        old(self).profile,
                        old(self).lease,
                        old(self).runtime@,
                        deadline_tick,
                        MAXIMUM_WAIT_SPINS as nat,
                        log,
                        start,
                    ) == await_run(
                        old(self).profile,
                        old(self).lease,
                        self.runtime@,
                        deadline_tick,
                        spins as nat,
                        log,
                        trace.log().len() as int,
                    ),
            decreases spins,
        {
            let ghost head = trace.log();
            let now: u64 = trace.now();
            assert(trace.log()[head.len() as int] == HermesEvent::<B>::Now { tick: now });
            if tick_reached(now, deadline_tick) {
                return Err(HermesFault::DeadlineExpired);
            }
            match self.read_wire_event(trace) {
                Err(fault) => {
                    return Err(fault);
                },
                Ok(Some(event)) => {
                    return Ok(event);
                },
                Ok(None) => {},
            }
            let ghost quiet = trace.log();
            trace.relax();
            assert(trace.log()[quiet.len() as int] is Relax);
            spins = spins - 1;
        }
        Err(HermesFault::BootFuelExhausted)
    }

    fn negotiate(&mut self, deadline_tick: u64, trace: &mut HermesTrace<B>) -> (result: Result<
        (),
        HermesFault,
    >)
        requires
            old(self).wf(),
        ensures
            final(self).wf(),
            final(self).same_but_runtime(old(self)),
            final(self).runtime.service == old(self).runtime.service,
            final(trace).follows_with(*old(trace), *old(self).codec),
            forall|log: Seq<HermesEvent<B>>| #[trigger]
                crate::trace::continues(log, final(trace).log()) ==> negotiate_run(
                    old(self).profile,
                    old(self).lease,
                    old(self).runtime@,
                    deadline_tick,
                    log,
                    old(trace).log().len() as int,
                ) == Some((result, final(self).runtime@, final(trace).log().len() as int)),
    {
        let correlation: (u32, u32) = match self.runtime.allocate_correlation() {
            Err(fault) => {
                return Err(fault);
            },
            Ok(correlation) => correlation,
        };
        let arguments: [u64; 8] = [
            self.profile.required_features | self.profile.optional_features,
            offered_wire(&self.profile),
            0,
            0,
            0,
            0,
            0,
            0,
        ];
        let nothing: Vec<u8> = Vec::new();
        let command = HermesNormalizedCommand::build(
            correlation,
            HERMES_OPCODE_NEGOTIATE,
            0,
            0,
            arguments,
            nothing.as_slice(),
            deadline_tick,
        );
        proof {
            assert(arguments@ =~= seq![
                self.profile.required_features | self.profile.optional_features,
                offered_wire(&self.profile),
                0u64,
                0u64,
                0u64,
                0u64,
                0u64,
                0u64,
            ]);
            assert(nothing@ =~= Seq::<u8>::empty());
        }
        match self.send_wire(&command, trace) {
            Err(fault) => {
                return Err(fault);
            },
            Ok(_) => {},
        }
        let event = match self.await_event(deadline_tick, trace) {
            Err(fault) => {
                return Err(fault);
            },
            Ok(event) => event,
        };
        match negotiation_fault(&self.profile, correlation, &event) {
            Some(fault) => {
                return Err(fault);
            },
            None => {},
        }
        self.runtime.negotiated_features = event.arguments[0];
        Ok(())
    }

    fn kindle(&mut self, deadline_tick: u64, trace: &mut HermesTrace<B>) -> (result: Result<
        (),
        HermesFault,
    >)
        requires
            old(self).wf(),
        ensures
            final(self).wf(),
            final(self).same_but_runtime(old(self)),
            final(self).runtime.service == old(self).runtime.service,
            final(trace).follows_with(*old(trace), *old(self).codec),
            forall|log: Seq<HermesEvent<B>>| #[trigger]
                crate::trace::continues(log, final(trace).log()) ==> ignite_run(
                    old(self).identity,
                    old(self).evidence,
                    old(self).profile,
                    old(self).lease,
                    old(self).runtime@,
                    deadline_tick,
                    log,
                    old(trace).log().len() as int,
                ) == Some((result, final(self).runtime@, final(trace).log().len() as int)),
    {
        match self.boot(deadline_tick, trace) {
            Err(fault) => {
                return Err(fault);
            },
            Ok(_) => {},
        }
        self.negotiate(deadline_tick, trace)
    }

    /// Boots the device and agrees with it on a wire, or gives back all that is held.
    pub fn ignite(self, deadline_tick: u64, trace: &mut HermesTrace<B>) -> (result: Result<
        Hermes<'a, B, C, S, Online, PENDING>,
        HermesFault,
    >)
        requires
            self.wf(),
        ensures
            final(trace).follows_with(*old(trace), *self.codec),
            forall|log: Seq<HermesEvent<B>>| #[trigger]
                crate::trace::continues(log, final(trace).log()) ==> match ignite_run(
                    self.identity,
                    self.evidence,
                    self.profile,
                    self.lease,
                    self.runtime@,
                    deadline_tick,
                    log,
                    old(trace).log().len() as int,
                ) {
                    None => false,
                    Some((Ok(_), runtime, end)) => {
                        &&& result matches Ok(online)
                        &&& end == final(trace).log().len()
                        &&& online.wf()
                        &&& online.codec == self.codec
                        &&& online.identity == self.identity
                        &&& online.evidence == self.evidence
                        &&& online.profile == self.profile
                        &&& online.compatibility_proof == self.compatibility_proof
                        &&& online.firmware_seal == self.firmware_seal
                        &&& online.lease == self.lease
                        &&& online.runtime@ == runtime
                        &&& online.runtime.service == self.runtime.service
                    },
                    Some((Err(fault), _, end)) => {
                        &&& result matches Err(reported)
                        &&& reported == fault
                        &&& 0 <= end <= final(trace).log().len()
                        &&& final(trace).log().skip(end) == release_events(self.lease@)
                    },
                },
    {
        let mut hermes = self;
        match hermes.kindle(deadline_tick, trace) {
            Err(fault) => {
                let ghost tried = trace.log();
                hermes.lease.release(trace);
                assert(crate::trace::continues(trace.log(), tried));
                assert(trace.log().skip(tried.len() as int) =~= release_events(self.lease@));
                Err(fault)
            },
            Ok(_) => Ok(hermes.into_state()),
        }
    }
}

/// A described transport that may be bound: what is wrong with it first.
pub open spec fn binding_fault<const PENDING: usize>(
    personality_id: u64,
    profile: &HermesTransportProfile,
    evidence: &HermesProbeEvidence,
) -> Option<HermesFault> {
    match crate::hermes_gsp::profile_fault(personality_id, profile, evidence) {
        Some(fault) => Some(fault),
        None => if PENDING == 0 || profile.maximum_admission_backlog > PENDING {
            Some(HermesFault::ServiceCurveRejected)
        } else {
            None
        },
    }
}

impl<
    'a,
    B: HermesPlatform,
    C: HermesCodec,
    S: HermesService,
    const PENDING: usize,
> Hermes<'a, B, C, S, Profiled, PENDING> {
    /// A transport of a resolved personality as it described itself.
    pub open spec fn bound_to(
        &self,
        codec: &'a C,
        identity: HermesPciIdentity,
        evidence: HermesProbeEvidence,
        profile: HermesTransportProfile,
        proof: GpuCompatibilityProof,
        now_tick: u64,
    ) -> bool {
        &&& self.wf()
        &&& self.codec == codec
        &&& self.identity == identity
        &&& self.evidence == evidence
        &&& self.profile == profile
        &&& self.compatibility_proof == proof
        &&& self.firmware_seal is None
        &&& self.lease.holds_nothing()
        &&& self.runtime@ == crate::hermes_gsp::fresh_runtime(&identity, now_tick, PENDING as nat)
    }

    /// Binds a personality to what it said of its transport, at a tick, with what
    /// became of its service.
    pub fn profiled(
        codec: &'a C,
        personality_id: u64,
        identity: HermesPciIdentity,
        evidence: HermesProbeEvidence,
        profile: HermesTransportProfile,
        proof: GpuCompatibilityProof,
        now_tick: u64,
        service: Result<S, HermesAdmissionFault>,
    ) -> (result: Result<Self, HermesFault>)
        requires
            binding_fault::<PENDING>(personality_id, &profile, &evidence) is None,
        ensures
            match service {
                Err(_) => result == Err::<Self, _>(HermesFault::ServiceCurveRejected),
                Ok(service) => result matches Ok(hermes) && hermes.runtime.service == service
                    && hermes.bound_to(codec, identity, evidence, profile, proof, now_tick),
            },
    {
        match Runtime::around(&identity, now_tick, service) {
            Err(fault) => Err(fault),
            Ok(runtime) => Ok(
                Hermes {
                    codec,
                    identity,
                    evidence,
                    profile,
                    compatibility_proof: proof,
                    firmware_seal: None,
                    lease: HermesLease::new(),
                    runtime,
                    state: PhantomData,
                },
            ),
        }
    }

    /// Whether a resolved personality may have been bound so.
    pub open spec fn binds(
        codec: &'a C,
        personality_id: u64,
        proof: GpuCompatibilityProof,
        identity: HermesPciIdentity,
        evidence: HermesProbeEvidence,
        result: Result<Self, HermesFault>,
        before: Seq<HermesEvent<B>>,
        after: Seq<HermesEvent<B>>,
    ) -> bool {
        exists|described: Result<HermesTransportProfile, HermesFault>| #[trigger]
            call_ensures(C::describe_transport, (codec, &identity, &evidence), described)
                && match described {
                Err(fault) => result == Err::<Self, _>(fault) && after == before,
                Ok(profile) => match binding_fault::<PENDING>(
                    personality_id,
                    &profile,
                    &evidence,
                ) {
                    Some(fault) => result == Err::<Self, _>(fault) && after == before,
                    None => exists|now_tick: u64, service: Result<S, HermesAdmissionFault>|
                        #[trigger] call_ensures(
                            S::open,
                            (
                                crate::hermes_gsp::profile_curve(&profile),
                                now_tick,
                                proof.proof_root,
                            ),
                            service,
                        ) && after == before.push(HermesEvent::Now { tick: now_tick })
                            && match service {
                            Err(_) => result == Err::<Self, _>(HermesFault::ServiceCurveRejected),
                            Ok(service) => result matches Ok(hermes) && hermes.runtime.service
                                == service && hermes.bound_to(
                                codec,
                                identity,
                                evidence,
                                profile,
                                proof,
                                now_tick,
                            ),
                        },
                },
            }
    }

    pub fn bind<A: GpuCompatibility, const PERSONALITIES: usize>(
        registry: &PersonalityRegistry<'a, C, PERSONALITIES>,
        judge: &A,
        identity: HermesPciIdentity,
        evidence: HermesProbeEvidence,
        portable_evidence: &GpuDeviceEvidence,
        compatibility_secret: u64,
        minimum_personality_score: u32,
        trace: &mut HermesTrace<B>,
    ) -> (result: Result<Self, HermesFault>)
        ensures
            final(trace).follows(*old(trace)),
            match validate_identity(&identity) {
                Err(fault) => result == Err::<Self, _>(fault) && final(trace).log() == old(
                    trace,
                ).log(),
                Ok(_) => exists|
                    resolved: Result<crate::hermes_gsp::ResolvedPersonality<'a, C>, HermesFault>,
                | #[trigger]
                    registry.resolves(
                        judge,
                        &identity,
                        &evidence,
                        portable_evidence,
                        compatibility_secret,
                        minimum_personality_score,
                        resolved,
                    ) && match resolved {
                        Err(fault) => result == Err::<Self, _>(fault) && final(trace).log()
                            == old(trace).log(),
                        Ok(personality) => Self::binds(
                            personality.codec,
                            personality.personality_id,
                            personality.proof,
                            identity,
                            evidence,
                            result,
                            old(trace).log(),
                            final(trace).log(),
                        ),
                    },
            },
    {
        match validate_identity(&identity) {
            Err(fault) => {
                return Err(fault);
            },
            Ok(_) => {},
        }
        let resolved = registry.resolve(
            judge,
            &identity,
            &evidence,
            portable_evidence,
            compatibility_secret,
            minimum_personality_score,
        );
        assert(registry.resolves(
            judge,
            &identity,
            &evidence,
            portable_evidence,
            compatibility_secret,
            minimum_personality_score,
            resolved,
        ));
        let personality = match resolved {
            Err(fault) => {
                return Err(fault);
            },
            Ok(personality) => personality,
        };
        Self::bind_personality(
            personality.codec,
            personality.personality_id,
            personality.proof,
            identity,
            evidence,
            trace,
        )
    }

    fn bind_personality(
        codec: &'a C,
        personality_id: u64,
        proof: GpuCompatibilityProof,
        identity: HermesPciIdentity,
        evidence: HermesProbeEvidence,
        trace: &mut HermesTrace<B>,
    ) -> (result: Result<Self, HermesFault>)
        ensures
            final(trace).follows(*old(trace)),
            Self::binds(
                codec,
                personality_id,
                proof,
                identity,
                evidence,
                result,
                old(trace).log(),
                final(trace).log(),
            ),
    {
        let described = codec.describe_transport(&identity, &evidence);
        assert(call_ensures(C::describe_transport, (codec, &identity, &evidence), described));
        let profile = match described {
            Err(fault) => {
                return Err(fault);
            },
            Ok(profile) => profile,
        };
        match validate_profile(personality_id, &profile, &evidence) {
            Err(fault) => {
                return Err(fault);
            },
            Ok(_) => {},
        }
        if PENDING == 0 || profile.maximum_admission_backlog as usize > PENDING {
            return Err(HermesFault::ServiceCurveRejected);
        }
        let now_tick: u64 = trace.now();
        let service = S::open(
            crate::hermes_gsp::profile_curve(&profile),
            now_tick,
            proof.proof_root,
        );
        assert(call_ensures(
            S::open,
            (crate::hermes_gsp::profile_curve(&profile), now_tick, proof.proof_root),
            service,
        ));
        Self::profiled(
            codec,
            personality_id,
            identity,
            evidence,
            profile,
            proof,
            now_tick,
            service,
        )
    }
}

proof fn lemma_bars_release_windows<B: HermesPlatform>(
    bars: Seq<Option<MmioWindow<B::Mmio>>>,
    count: nat,
)
    requires
        count <= bars.len(),
    ensures
        forall|i: int|
            0 <= i < bars_release::<B>(bars, count).len() ==> #[trigger] bars_release::<B>(
                bars,
                count,
            )[i] is UnmapBar,
        forall|bar: int|
            0 <= bar < count ==> (#[trigger] bars[bar] matches Some(window)
                ==> bars_release::<B>(bars, count).contains(HermesEvent::UnmapBar { window })),
    decreases count,
{
    if count > 0 {
        let rest = (count - 1) as nat;
        lemma_bars_release_windows::<B>(bars, rest);
        let tail = bars_release::<B>(bars, rest);
        let head: Seq<HermesEvent<B>> = match bars[count - 1] {
            None => Seq::empty(),
            Some(window) => seq![HermesEvent::UnmapBar { window }],
        };
        let all = bars_release::<B>(bars, count);
        assert(all == head + tail);
        assert forall|i: int| 0 <= i < all.len() implies #[trigger] all[i] is UnmapBar by {
            if i >= head.len() {
                assert(all[i] == tail[i - head.len()]);
            }
        }
        assert forall|bar: int| 0 <= bar < count implies (#[trigger] bars[bar] matches Some(window)
            ==> all.contains(HermesEvent::UnmapBar { window })) by {
            match bars[bar] {
                None => {},
                Some(window) => {
                    let event = HermesEvent::<B>::UnmapBar { window };
                    if bar == count - 1 {
                        assert(all[0] == event);
                    } else {
                        assert(tail.contains(event));
                        let place = choose|i: int| 0 <= i < tail.len() && tail[i] == event;
                        assert(all[head.len() + place] == event);
                    }
                },
            }
        }
    }
}

/// A lease that is released gives back every window and every region that it held,
/// and its domain last of all.
pub proof fn law_a_release_gives_back_all_and_the_domain_last<B: HermesPlatform>(
    lease: LeaseView<B>,
    domain: B::Domain,
)
    requires
        lease.bars.len() == 6,
        lease.domain == Some(domain),
    ensures
        release_events(lease).len() > 0,
        release_events(lease).last() == (HermesEvent::<B>::ReleaseDomain { domain }),
        forall|i: int|
            0 <= i < release_events(lease).len() - 1 ==> !(#[trigger] release_events(
                lease,
            )[i] is ReleaseDomain),
        forall|bar: int|
            0 <= bar < 6 ==> (#[trigger] lease.bars[bar] matches Some(window) ==> release_events(
                lease,
            ).contains(HermesEvent::UnmapBar { window })),
        lease.event_ring matches Some(region) ==> release_events(lease).contains(
            HermesEvent::ReleaseDma { region },
        ),
        lease.command_ring matches Some(region) ==> release_events(lease).contains(
            HermesEvent::ReleaseDma { region },
        ),
        lease.firmware matches Some(region) ==> release_events(lease).contains(
            HermesEvent::ReleaseDma { region },
        ),
{
    lemma_bars_release_windows::<B>(lease.bars, 6);
    let events = region_release::<B>(lease.event_ring);
    let commands = region_release::<B>(lease.command_ring);
    let firmware = region_release::<B>(lease.firmware);
    let bars = bars_release::<B>(lease.bars, 6);
    let last = domain_release::<B>(lease.domain);
    let all = release_events(lease);
    let first = events.len() as int;
    let second = first + commands.len();
    let third = second + firmware.len();
    assert(all == events + commands + firmware + bars + last);
    assert forall|i: int| 0 <= i < all.len() - 1 implies !(#[trigger] all[i] is ReleaseDomain) by {
        if i < first {
            assert(all[i] == events[i]);
        } else if i < second {
            assert(all[i] == commands[i - first]);
        } else if i < third {
            assert(all[i] == firmware[i - second]);
        } else {
            assert(all[i] == bars[i - third]);
        }
    }
    assert forall|bar: int| 0 <= bar < 6 implies (#[trigger] lease.bars[bar] matches Some(window)
        ==> all.contains(HermesEvent::UnmapBar { window })) by {
        match lease.bars[bar] {
            None => {},
            Some(window) => {
                let event = HermesEvent::<B>::UnmapBar { window };
                assert(bars.contains(event));
                let place = choose|i: int| 0 <= i < bars.len() && bars[i] == event;
                assert(all[third + place] == event);
            },
        }
    }
    if lease.event_ring is Some {
        assert(all[0] == events[0]);
    }
    if lease.command_ring is Some {
        assert(all[first] == commands[0]);
    }
    if lease.firmware is Some {
        assert(all[second] == firmware[0]);
    }
}

/// A negotiation that succeeds settles on the profile's own wire and has every
/// feature that the profile requires.
pub proof fn law_a_negotiated_transport_has_what_it_requires(
    profile: HermesTransportProfile,
    correlation: (u32, u32),
    event: HermesNormalizedEvent,
)
    requires
        negotiation_fault(&profile, correlation, &event) is None,
    ensures
        event.arguments[0] & profile.required_features == profile.required_features,
        event.correlation_epoch == correlation.0,
        event.correlation_sequence == correlation.1,
        event.status == 0,
{
}


/// A command that was sent was shown to the device in order: its slot was written,
/// published and fenced before the producer was counted, and the doorbell rang
/// last, with another fence behind it.
pub proof fn law_a_command_is_published_before_its_doorbell<B: HermesPlatform>(
    profile: HermesTransportProfile,
    lease: HermesLease<B>,
    runtime: RuntimeView,
    command: CommandShape,
    log: Seq<HermesEvent<B>>,
    at: int,
    after: RuntimeView,
    end: int,
)
    requires
        send_run(profile, lease, runtime, command, log, at) == Some(
            (Ok::<(), HermesFault>(()), after, end),
        ),
    ensures
        end == at + 8,
        after.command_producer == runtime.command_producer.wrapping_add(1),
        lease.command_ring matches Some(ring) && {
            let offset = slot_offset(
                runtime.command_producer,
                profile.command_depth,
                profile.command_slot_bytes,
            );
            &&& (log[at + 2] matches HermesEvent::DmaWrite { region, offset: place, .. } && region
                == ring && place == offset)
            &&& (log[at + 3] matches HermesEvent::Publish { region, offset: place, .. } && region
                == ring && place == offset)
        },
        log[at + 4] is Fence,
        log[at + 5] matches HermesEvent::Write { window, offset, value, .. } && lease.window_of(
            profile.control_bar,
        ) == Some(window) && offset == profile.command_producer_offset && value
            == after.command_producer,
        log[at + 6] matches HermesEvent::Write { window, offset, value, .. } && lease.window_of(
            profile.doorbell_bar,
        ) == Some(window) && offset == profile.command_doorbell_offset && value
            == after.command_producer,
        log[at + 7] is Fence,
{
}


/// Firmware reaches device memory only behind the authority: where a region was
/// taken for it, the authority had vouched for exactly this image first, with a seal
/// of its manifest and version, and a loaded image is written whole, then published.
pub proof fn law_loaded_firmware_was_authenticated<B: HermesPlatform>(
    identity: HermesPciIdentity,
    evidence: HermesProbeEvidence,
    profile: HermesTransportProfile,
    domain: B::Domain,
    image: FirmwareImage,
    log: Seq<HermesEvent<B>>,
    at: int,
    result: Result<(), HermesFault>,
    region: DmaRegion<B::Dma>,
    kept: Option<FirmwareSeal>,
    end: int,
)
    requires
        load_run(identity, evidence, profile, domain, Some(image), log, at) == Some(
            (result, Some(region), kept, end),
        ),
    ensures
        authenticate_at(
            identity,
            evidence,
            profile,
            crate::hermes_trace::image_shape(&image),
            log,
            at,
        ) matches Some(
            Ok(seal),
        ) && {
            &&& seal.manifest_hash@ == image.manifest_hash@
            &&& seal.version == image.version
            &&& result is Ok ==> kept == Some(seal)
        },
        result is Ok ==> {
            &&& end == at + 4
            &&& (log[at + 2] matches HermesEvent::DmaWrite { region: into, offset, bytes, .. }
                && into == region && offset == 0 && bytes == image.bytes@)
            &&& (log[at + 3] matches HermesEvent::Publish { region: of, .. } && of == region)
        },
{
}

} // verus!
