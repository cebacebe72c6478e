//! The transcript of a transport: what its platform, personality, authority and service
//! were asked and answered.

use crate::hermes_abi::{
    CommandShape, HermesAdmissionCertificate, HermesAdmissionFault, HermesBootInstruction,
    HermesNormalizedCommand, HermesNormalizedEvent, HermesPciIdentity, HermesProbeEvidence,
    HermesTransportProfile,
};
use crate::hermes_gsp::{
    DmaPurpose, DmaRegion, FirmwareAuthority, FirmwareImage, FirmwareSeal, HermesCodec,
    HermesFault, HermesPlatform, HermesService, MmioWindow, ServiceCall,
};
use vstd::prelude::*;

verus! {

/// One exchange of a transport with the outside.
#[allow(inconsistent_fields)]
pub enum HermesEvent<B: HermesPlatform> {
    Isolate { identity: HermesPciIdentity, reply: Result<B::Domain, HermesFault> },
    ReleaseDomain { domain: B::Domain },
    MapBar {
        domain: B::Domain,
        bar: u8,
        minimum_length: u64,
        reply: Result<MmioWindow<B::Mmio>, HermesFault>,
    },
    UnmapBar { window: MmioWindow<B::Mmio> },
    Read { window: MmioWindow<B::Mmio>, offset: u32, reply: Result<u32, HermesFault> },
    Write {
        window: MmioWindow<B::Mmio>,
        offset: u32,
        value: u32,
        reply: Result<(), HermesFault>,
    },
    Fence { reply: Result<(), HermesFault> },
    Allocate {
        domain: B::Domain,
        length: usize,
        alignment: usize,
        purpose: DmaPurpose,
        reply: Result<DmaRegion<B::Dma>, HermesFault>,
    },
    ReleaseDma { region: DmaRegion<B::Dma> },
    DmaWrite {
        region: DmaRegion<B::Dma>,
        offset: usize,
        bytes: Seq<u8>,
        reply: Result<(), HermesFault>,
    },
    DmaRead {
        region: DmaRegion<B::Dma>,
        offset: usize,
        room: nat,
        bytes: Seq<u8>,
        reply: Result<(), HermesFault>,
    },
    Publish {
        region: DmaRegion<B::Dma>,
        offset: usize,
        length: usize,
        reply: Result<(), HermesFault>,
    },
    Acquire {
        region: DmaRegion<B::Dma>,
        offset: usize,
        length: usize,
        reply: Result<(), HermesFault>,
    },
    Now { tick: u64 },
    Relax,
    Boot {
        identity: HermesPciIdentity,
        evidence: HermesProbeEvidence,
        stage: u32,
        index: u32,
        reply: Result<Option<HermesBootInstruction>, HermesFault>,
    },
    Encode {
        profile: HermesTransportProfile,
        command: CommandShape,
        room: Seq<u8>,
        wire: Seq<u8>,
        reply: Result<usize, HermesFault>,
    },
    Decode {
        profile: HermesTransportProfile,
        wire: Seq<u8>,
        reply: Result<HermesNormalizedEvent, HermesFault>,
    },
    Reset { profile: HermesTransportProfile, epoch: u32, reply: Result<(), HermesFault> },
    Authenticate {
        identity: HermesPciIdentity,
        evidence: HermesProbeEvidence,
        profile: HermesTransportProfile,
        image: ImageShape,
        reply: Result<FirmwareSeal, HermesFault>,
    },
    Reserve {
        now_tick: u64,
        deadline_tick: u64,
        backlog: usize,
        reply: Result<HermesAdmissionCertificate, HermesAdmissionFault>,
    },
    Rollback { admission: HermesAdmissionCertificate, reply: Result<(), HermesAdmissionFault> },
    Complete {
        admission: HermesAdmissionCertificate,
        now_tick: u64,
        reply: Result<(), HermesAdmissionFault>,
    },
}

/// What a firmware image holds.
pub struct ImageShape {
    pub bytes: Seq<u8>,
    pub manifest_hash: Seq<u8>,
    pub version: u64,
    pub flags: u64,
}

pub open spec fn image_shape(image: &FirmwareImage) -> ImageShape {
    ImageShape {
        bytes: image.bytes@,
        manifest_hash: image.manifest_hash@,
        version: image.version,
        flags: image.flags,
    }
}

/// The transcript of a transport. Only the exchanges below write it.
pub struct HermesLog<B: HermesPlatform> {
    entries: Ghost<Seq<HermesEvent<B>>>,
}

impl<B: HermesPlatform> View for HermesLog<B> {
    type V = Seq<HermesEvent<B>>;

    closed spec fn view(&self) -> Seq<HermesEvent<B>> {
        self.entries@
    }
}

/// A platform with the transcript of what it, the personality, the authority and
/// the service were asked.
pub struct HermesTrace<B: HermesPlatform> {
    pub platform: B,
    pub log: HermesLog<B>,
}

impl<B: HermesPlatform> HermesEvent<B> {
    /// Whether this is an exchange with the platform.
    pub open spec fn of_platform(self) -> bool {
        match self {
            HermesEvent::Boot { .. }
            | HermesEvent::Encode { .. }
            | HermesEvent::Decode { .. }
            | HermesEvent::Reset { .. }
            | HermesEvent::Authenticate { .. }
            | HermesEvent::Reserve { .. }
            | HermesEvent::Rollback { .. }
            | HermesEvent::Complete { .. } => false,
            _ => true,
        }
    }

    /// The exchange with the service that this is, if it is one.
    pub open spec fn service_call(self) -> Option<ServiceCall> {
        match self {
            HermesEvent::Reserve { now_tick, deadline_tick, backlog, reply } => Some(
                ServiceCall::Reserve { now_tick, deadline_tick, backlog, reply },
            ),
            HermesEvent::Rollback { admission, reply } => Some(
                ServiceCall::Rollback { admission, reply },
            ),
            HermesEvent::Complete { admission, now_tick, reply } => Some(
                ServiceCall::Complete { admission, now_tick, reply },
            ),
            _ => None,
        }
    }

    /// Whether this is what a personality answers.
    pub open spec fn said_by<C: HermesCodec>(self, codec: C) -> bool {
        match self {
            HermesEvent::Boot { identity, evidence, stage, index, reply } => call_ensures(
                C::boot_instruction,
                (&codec, &identity, &evidence, stage, index),
                reply,
            ),
            HermesEvent::Encode { profile, command, room, wire, reply } => codec.encodes(
                profile,
                command,
                room,
                wire,
                reply,
            ),
            HermesEvent::Decode { profile, wire, reply } => codec.decodes(profile, wire, reply),
            HermesEvent::Reset { profile, epoch, reply } => call_ensures(
                C::reset,
                (&codec, &profile, epoch),
                reply,
            ),
            _ => false,
        }
    }

    /// Whether this is what an authority answers.
    pub open spec fn vouched_by<F: FirmwareAuthority>(self, authority: F) -> bool {
        match self {
            HermesEvent::Authenticate { identity, evidence, profile, image, reply } =>
                authority.vouches(identity, evidence, profile, image, reply),
            _ => false,
        }
    }
}

/// What a transcript holds of the service.
pub open spec fn service_part<B: HermesPlatform>(log: Seq<HermesEvent<B>>) -> Seq<ServiceCall>
    decreases log.len(),
{
    if log.len() == 0 {
        Seq::empty()
    } else {
        match log.last().service_call() {
            Some(call) => service_part(log.drop_last()).push(call),
            None => service_part(log.drop_last()),
        }
    }
}

pub open spec fn of_platform<B: HermesPlatform>() -> spec_fn(HermesEvent<B>) -> bool {
    |event: HermesEvent<B>| event.of_platform()
}

/// Whether a transcript grew by exchanges of some kind only, and the platform's history
/// by those that are with the platform.
pub open spec fn grew<B: HermesPlatform>(
    trace: HermesTrace<B>,
    earlier: HermesTrace<B>,
    kind: spec_fn(HermesEvent<B>) -> bool,
) -> bool {
    &&& crate::trace::told(
        trace.log(),
        earlier.log(),
        trace.platform.history(),
        earlier.platform.history(),
        of_platform(),
    )
    &&& forall|i: int|
        earlier.log().len() <= i < trace.log().len() ==> kind(#[trigger] trace.log()[i])
}

/// Whether a transcript grew by what a service's history grew by, as far as it speaks of
/// the service.
pub open spec fn served<B: HermesPlatform, S: HermesService>(
    trace: HermesTrace<B>,
    earlier: HermesTrace<B>,
    service: S,
    before: S,
) -> bool {
    service.history() == before.history() + service_part(
        trace.log().skip(earlier.log().len() as int),
    )
}

impl<B: HermesPlatform> HermesTrace<B> {
    /// Whether this came of an earlier state by exchanges with the platform alone.
    #[verifier::opaque]
    pub open spec fn follows(self, earlier: Self) -> bool {
        grew(self, earlier, of_platform())
    }

    /// Whether this came of an earlier state by exchanges with the platform and with a
    /// personality, each answered as this personality answers.
    #[verifier::opaque]
    pub open spec fn follows_with<C: HermesCodec>(self, earlier: Self, codec: C) -> bool {
        grew(self, earlier, |event: HermesEvent<B>| event.of_platform() || event.said_by(codec))
    }

    /// Whether this came of an earlier state by exchanges with the platform, with a
    /// personality and with a service, which went from one state to the other by them.
    #[verifier::opaque]
    pub open spec fn follows_served<C: HermesCodec, S: HermesService>(
        self,
        earlier: Self,
        codec: C,
        service: S,
        before: S,
    ) -> bool {
        &&& grew(
            self,
            earlier,
            |event: HermesEvent<B>|
                event.of_platform() || event.said_by(codec) || event.service_call() is Some,
        )
        &&& served(self, earlier, service, before)
    }

    /// Whether this came of an earlier state by exchanges with the platform, with a
    /// personality and with an authority, each answered as they answer.
    #[verifier::opaque]
    pub open spec fn follows_vouched<C: HermesCodec, F: FirmwareAuthority>(
        self,
        earlier: Self,
        codec: C,
        authority: F,
    ) -> bool {
        grew(
            self,
            earlier,
            |event: HermesEvent<B>|
                event.of_platform() || event.said_by(codec) || event.vouched_by(authority),
        )
    }
}

impl<B: HermesPlatform> HermesTrace<B> {
    pub open spec fn log(&self) -> Seq<HermesEvent<B>> {
        self.log@
    }

    pub fn new(platform: B) -> (trace: Self)
        ensures
            trace.platform == platform,
            trace.log() == Seq::<HermesEvent<B>>::empty(),
    {
        HermesTrace { platform, log: HermesLog { entries: Ghost(Seq::empty()) } }
    }

    pub(crate) fn isolate(
        &mut self,
        identity: HermesPciIdentity,
    ) -> (reply: Result<B::Domain, HermesFault>)
        ensures
            final(self).follows(*old(self)),
            final(self).log() == old(self).log().push(HermesEvent::Isolate { identity, reply }),
    {
        let reply = self.platform.isolate_device(identity);
        proof {
            let entry = HermesEvent::Isolate { identity, reply };
            self.log.entries@ = self.log.entries@.push(entry);
            lemma_asked_platform(*old(self), *self, entry);
        }
        reply
    }

    pub(crate) fn release_domain(&mut self, domain: B::Domain)
        ensures
            final(self).follows(*old(self)),
            final(self).log() == old(self).log().push(HermesEvent::ReleaseDomain { domain }),
    {
        self.platform.release_domain(domain);
        proof {
            let entry = HermesEvent::ReleaseDomain { domain };
            self.log.entries@ = self.log.entries@.push(entry);
            lemma_asked_platform(*old(self), *self, entry);
        }
    }

    pub(crate) fn map_bar(
        &mut self,
        domain: B::Domain,
        bar: u8,
        minimum_length: u64,
    ) -> (reply: Result<MmioWindow<B::Mmio>, HermesFault>)
        ensures
            final(self).follows(*old(self)),
            final(self).log() == old(self).log().push(
                HermesEvent::MapBar { domain, bar, minimum_length, reply },
            ),
    {
        let reply = self.platform.map_bar(domain, bar, minimum_length);
        proof {
            let entry = HermesEvent::MapBar { domain, bar, minimum_length, reply };
            self.log.entries@ = self.log.entries@.push(entry);
            lemma_asked_platform(*old(self), *self, entry);
        }
        reply
    }

    pub(crate) fn unmap_bar(&mut self, window: MmioWindow<B::Mmio>)
        ensures
            final(self).follows(*old(self)),
            final(self).log() == old(self).log().push(HermesEvent::UnmapBar { window }),
    {
        self.platform.unmap_bar(window);
        proof {
            let entry = HermesEvent::UnmapBar { window };
            self.log.entries@ = self.log.entries@.push(entry);
            lemma_asked_platform(*old(self), *self, entry);
        }
    }

    pub(crate) fn read(
        &mut self,
        window: MmioWindow<B::Mmio>,
        offset: u32,
    ) -> (reply: Result<u32, HermesFault>)
        ensures
            final(self).follows(*old(self)),
            final(self).log() == old(self).log().push(HermesEvent::Read { window, offset, reply }),
    {
        let reply = self.platform.read32(window, offset);
        proof {
            let entry = HermesEvent::Read { window, offset, reply };
            self.log.entries@ = self.log.entries@.push(entry);
            lemma_asked_platform(*old(self), *self, entry);
        }
        reply
    }

    pub(crate) fn write(
        &mut self,
        window: MmioWindow<B::Mmio>,
        offset: u32,
        value: u32,
    ) -> (reply: Result<(), HermesFault>)
        ensures
            final(self).follows(*old(self)),
            final(self).log() == old(self).log().push(
                HermesEvent::Write { window, offset, value, reply },
            ),
    {
        let reply = self.platform.write32(window, offset, value);
        proof {
            let entry = HermesEvent::Write { window, offset, value, reply };
            self.log.entries@ = self.log.entries@.push(entry);
            lemma_asked_platform(*old(self), *self, entry);
        }
        reply
    }

    pub(crate) fn fence(&mut self) -> (reply: Result<(), HermesFault>)
        ensures
            final(self).follows(*old(self)),
            final(self).log() == old(self).log().push(HermesEvent::Fence { reply }),
    {
        let reply = self.platform.io_fence();
        proof {
            let entry = HermesEvent::Fence { reply };
            self.log.entries@ = self.log.entries@.push(entry);
            lemma_asked_platform(*old(self), *self, entry);
        }
        reply
    }

    pub(crate) fn allocate(
        &mut self,
        domain: B::Domain,
        length: usize,
        alignment: usize,
        purpose: DmaPurpose,
    ) -> (reply: Result<DmaRegion<B::Dma>, HermesFault>)
        ensures
            final(self).follows(*old(self)),
            final(self).log() == old(self).log().push(
                HermesEvent::Allocate { domain, length, alignment, purpose, reply },
            ),
    {
        let reply = self.platform.allocate_dma(domain, length, alignment, purpose);
        proof {
            let entry = HermesEvent::Allocate { domain, length, alignment, purpose, reply };
            self.log.entries@ = self.log.entries@.push(entry);
            lemma_asked_platform(*old(self), *self, entry);
        }
        reply
    }

    pub(crate) fn release_dma(&mut self, region: DmaRegion<B::Dma>)
        ensures
            final(self).follows(*old(self)),
            final(self).log() == old(self).log().push(HermesEvent::ReleaseDma { region }),
    {
        self.platform.release_dma(region);
        proof {
            let entry = HermesEvent::ReleaseDma { region };
            self.log.entries@ = self.log.entries@.push(entry);
            lemma_asked_platform(*old(self), *self, entry);
        }
    }

    pub(crate) fn dma_write(
        &mut self,
        region: DmaRegion<B::Dma>,
        offset: usize,
        bytes: &[u8],
    ) -> (reply: Result<(), HermesFault>)
        ensures
            final(self).follows(*old(self)),
            final(self).log() == old(self).log().push(
                HermesEvent::DmaWrite { region, offset, bytes: bytes@, reply },
            ),
    {
        let reply = self.platform.dma_write(region, offset, bytes);
        proof {
            let entry = HermesEvent::DmaWrite { region, offset, bytes: bytes@, reply };
            self.log.entries@ = self.log.entries@.push(entry);
            lemma_asked_platform(*old(self), *self, entry);
        }
        reply
    }

    pub(crate) fn dma_read(
        &mut self,
        region: DmaRegion<B::Dma>,
        offset: usize,
        bytes: &mut [u8],
    ) -> (reply: Result<(), HermesFault>)
        ensures
            final(self).follows(*old(self)),
            final(self).log() == old(self).log().push(
                HermesEvent::DmaRead {
                    region,
                    offset,
                    room: old(bytes)@.len(),
                    bytes: final(bytes)@,
                    reply,
                },
            ),
    {
        let ghost room = bytes@.len();
        let reply = self.platform.dma_read(region, offset, bytes);
        proof {
            let entry = HermesEvent::DmaRead { region, offset, room: room, bytes: bytes@, reply };
            self.log.entries@ = self.log.entries@.push(entry);
            lemma_asked_platform(*old(self), *self, entry);
        }
        reply
    }

    pub(crate) fn publish(
        &mut self,
        region: DmaRegion<B::Dma>,
        offset: usize,
        length: usize,
    ) -> (reply: Result<(), HermesFault>)
        ensures
            final(self).follows(*old(self)),
            final(self).log() == old(self).log().push(
                HermesEvent::Publish { region, offset, length, reply },
            ),
    {
        let reply = self.platform.dma_publish(region, offset, length);
        proof {
            let entry = HermesEvent::Publish { region, offset, length, reply };
            self.log.entries@ = self.log.entries@.push(entry);
            lemma_asked_platform(*old(self), *self, entry);
        }
        reply
    }

    pub(crate) fn acquire(
        &mut self,
        region: DmaRegion<B::Dma>,
        offset: usize,
        length: usize,
    ) -> (reply: Result<(), HermesFault>)
        ensures
            final(self).follows(*old(self)),
            final(self).log() == old(self).log().push(
                HermesEvent::Acquire { region, offset, length, reply },
            ),
    {
        let reply = self.platform.dma_acquire(region, offset, length);
        proof {
            let entry = HermesEvent::Acquire { region, offset, length, reply };
            self.log.entries@ = self.log.entries@.push(entry);
            lemma_asked_platform(*old(self), *self, entry);
        }
        reply
    }

    pub(crate) fn now(&mut self) -> (reply: u64)
        ensures
            final(self).follows(*old(self)),
            final(self).log() == old(self).log().push(HermesEvent::Now { tick: reply }),
    {
        let reply: u64 = self.platform.now_tick();
        proof {
            let entry = HermesEvent::Now { tick: reply };
            self.log.entries@ = self.log.entries@.push(entry);
            lemma_asked_platform(*old(self), *self, entry);
        }
        reply
    }

    pub(crate) fn relax(&mut self)
        ensures
            final(self).follows(*old(self)),
            final(self).log() == old(self).log().push(HermesEvent::Relax),
    {
        self.platform.relax();
        proof {
            let entry = HermesEvent::Relax;
            self.log.entries@ = self.log.entries@.push(entry);
            lemma_asked_platform(*old(self), *self, entry);
        }
    }

    pub(crate) fn boot<C: HermesCodec>(
        &mut self,
        codec: &C,
        identity: &HermesPciIdentity,
        evidence: &HermesProbeEvidence,
        stage: u32,
        index: u32,
    ) -> (reply: Result<Option<HermesBootInstruction>, HermesFault>)
        ensures
            final(self).follows_with(*old(self), *codec),
            final(self).log() == old(self).log().push(
                HermesEvent::Boot {
                    identity: *identity,
                    evidence: *evidence,
                    stage,
                    index,
                    reply,
                },
            ),
    {
        let reply = codec.boot_instruction(identity, evidence, stage, index);
        proof {
            let entry = HermesEvent::Boot {
                    identity: *identity,
                    evidence: *evidence,
                    stage,
                    index,
                    reply,
                };
            self.log.entries@ = self.log.entries@.push(entry);
            lemma_asked_codec(*old(self), *self, *codec, entry);
        }
        reply
    }

    pub(crate) fn encode<C: HermesCodec>(
        &mut self,
        codec: &C,
        profile: &HermesTransportProfile,
        command: &HermesNormalizedCommand,
        output: &mut [u8],
    ) -> (reply: Result<usize, HermesFault>)
        ensures
            final(self).follows_with(*old(self), *codec),
            final(self).log() == old(self).log().push(
                HermesEvent::Encode {
                    profile: *profile,
                    command: command.shape(),
                    room: old(output)@,
                    wire: final(output)@,
                    reply,
                },
            ),
    {
        let ghost room = output@;
        let reply = codec.encode_command(profile, command, output);
        proof {
            let entry = HermesEvent::Encode {
                    profile: *profile,
                    command: command.shape(),
                    room,
                    wire: output@,
                    reply,
                };
            self.log.entries@ = self.log.entries@.push(entry);
            lemma_asked_codec(*old(self), *self, *codec, entry);
        }
        reply
    }

    pub(crate) fn decode<C: HermesCodec>(
        &mut self,
        codec: &C,
        profile: &HermesTransportProfile,
        input: &[u8],
    ) -> (reply: Result<HermesNormalizedEvent, HermesFault>)
        ensures
            final(self).follows_with(*old(self), *codec),
            final(self).log() == old(self).log().push(
                HermesEvent::Decode { profile: *profile, wire: input@, reply },
            ),
    {
        let reply = codec.decode_event(profile, input);
        proof {
            let entry = HermesEvent::Decode { profile: *profile, wire: input@, reply };
            self.log.entries@ = self.log.entries@.push(entry);
            lemma_asked_codec(*old(self), *self, *codec, entry);
        }
        reply
    }

    pub(crate) fn reset<C: HermesCodec>(
        &mut self,
        codec: &C,
        profile: &HermesTransportProfile,
        epoch: u32,
    ) -> (reply: Result<(), HermesFault>)
        ensures
            final(self).follows_with(*old(self), *codec),
            final(self).log() == old(self).log().push(
                HermesEvent::Reset { profile: *profile, epoch, reply },
            ),
    {
        let reply = codec.reset(profile, epoch);
        proof {
            let entry = HermesEvent::Reset { profile: *profile, epoch, reply };
            self.log.entries@ = self.log.entries@.push(entry);
            lemma_asked_codec(*old(self), *self, *codec, entry);
        }
        reply
    }

    pub(crate) fn authenticate<F: FirmwareAuthority>(
        &mut self,
        authority: &F,
        identity: &HermesPciIdentity,
        evidence: &HermesProbeEvidence,
        profile: &HermesTransportProfile,
        image: &FirmwareImage,
    ) -> (reply: Result<FirmwareSeal, HermesFault>)
        ensures
            final(self).platform == old(self).platform,
            final(self).log() == old(self).log().push(
                HermesEvent::Authenticate {
                    identity: *identity,
                    evidence: *evidence,
                    profile: *profile,
                    image: image_shape(image),
                    reply,
                },
            ),
            authority.vouches(*identity, *evidence, *profile, image_shape(image), reply),
    {
        let reply = authority.authenticate(identity, evidence, profile, image);
        proof {
            self.log.entries@ = self.log.entries@.push(
                HermesEvent::Authenticate {
                    identity: *identity,
                    evidence: *evidence,
                    profile: *profile,
                    image: image_shape(image),
                    reply,
                },
            );
        }
        reply
    }

    pub(crate) fn reserve<S: HermesService>(
        &mut self,
        service: &mut S,
        now_tick: u64,
        deadline_tick: u64,
        backlog: usize,
    ) -> (reply: Result<HermesAdmissionCertificate, HermesAdmissionFault>)
        ensures
            final(self).platform == old(self).platform,
            final(self).log() == old(self).log().push(
                HermesEvent::Reserve { now_tick, deadline_tick, backlog, reply },
            ),
            final(service).history() == old(service).history().push(
                ServiceCall::Reserve { now_tick, deadline_tick, backlog, reply },
            ),
    {
        let reply = service.reserve(now_tick, deadline_tick, backlog);
        proof {
            self.log.entries@ = self.log.entries@.push(
                HermesEvent::Reserve { now_tick, deadline_tick, backlog, reply },
            );
        }
        reply
    }

    pub(crate) fn rollback<S: HermesService>(
        &mut self,
        service: &mut S,
        admission: HermesAdmissionCertificate,
    ) -> (reply: Result<(), HermesAdmissionFault>)
        ensures
            final(self).platform == old(self).platform,
            final(self).log() == old(self).log().push(HermesEvent::Rollback { admission, reply }),
            final(service).history() == old(service).history().push(
                ServiceCall::Rollback { admission, reply },
            ),
    {
        let reply = service.rollback(admission);
        proof {
            self.log.entries@ = self.log.entries@.push(
                HermesEvent::Rollback { admission, reply },
            );
        }
        reply
    }

    pub(crate) fn complete<S: HermesService>(
        &mut self,
        service: &mut S,
        admission: HermesAdmissionCertificate,
        now_tick: u64,
    ) -> (reply: Result<(), HermesAdmissionFault>)
        ensures
            final(self).platform == old(self).platform,
            final(self).log() == old(self).log().push(
                HermesEvent::Complete { admission, now_tick, reply },
            ),
            final(service).history() == old(service).history().push(
                ServiceCall::Complete { admission, now_tick, reply },
            ),
    {
        let reply = service.observe_completion(admission, now_tick);
        proof {
            self.log.entries@ = self.log.entries@.push(
                HermesEvent::Complete { admission, now_tick, reply },
            );
        }
        reply
    }
}

proof fn lemma_grew_through<B: HermesPlatform>(
    trace: HermesTrace<B>,
    middle: HermesTrace<B>,
    earlier: HermesTrace<B>,
    later_kind: spec_fn(HermesEvent<B>) -> bool,
    first_kind: spec_fn(HermesEvent<B>) -> bool,
    kind: spec_fn(HermesEvent<B>) -> bool,
)
    requires
        grew(trace, middle, later_kind),
        grew(middle, earlier, first_kind),
        forall|event: HermesEvent<B>| #[trigger] later_kind(event) ==> kind(event),
        forall|event: HermesEvent<B>| #[trigger] first_kind(event) ==> kind(event),
    ensures
        grew(trace, earlier, kind),
{
    crate::trace::lemma_told_through(
        trace.log(),
        middle.log(),
        earlier.log(),
        trace.platform.history(),
        middle.platform.history(),
        earlier.platform.history(),
        of_platform(),
    );
    assert forall|i: int| earlier.log().len() <= i < trace.log().len() implies kind(
        #[trigger] trace.log()[i],
    ) by {
        if i < middle.log().len() {
            assert(trace.log()[i] == middle.log()[i]);
            assert(first_kind(middle.log()[i]));
        } else {
            assert(later_kind(trace.log()[i]));
        }
    }
}

proof fn lemma_grew_one<B: HermesPlatform>(
    before: HermesTrace<B>,
    after: HermesTrace<B>,
    entry: HermesEvent<B>,
    kind: spec_fn(HermesEvent<B>) -> bool,
)
    requires
        after.log() == before.log().push(entry),
        after.platform.history() == (if entry.of_platform() {
            before.platform.history().push(entry)
        } else {
            before.platform.history()
        }),
        kind(entry),
    ensures
        grew(after, before, kind),
{
    crate::trace::lemma_told_one(before.log(), entry, before.platform.history(), of_platform());
}

proof fn lemma_service_part_of_both<B: HermesPlatform>(
    first: Seq<HermesEvent<B>>,
    second: Seq<HermesEvent<B>>,
)
    ensures
        service_part(first + second) == service_part(first) + service_part(second),
    decreases second.len(),
{
    if second.len() == 0 {
        assert(first + second =~= first);
    } else {
        assert((first + second).drop_last() =~= first + second.drop_last());
        lemma_service_part_of_both(first, second.drop_last());
    }
}

proof fn lemma_no_service_part<B: HermesPlatform>(log: Seq<HermesEvent<B>>)
    requires
        forall|i: int| 0 <= i < log.len() ==> (#[trigger] log[i]).service_call() is None,
    ensures
        service_part(log) == Seq::<ServiceCall>::empty(),
    decreases log.len(),
{
    if log.len() > 0 {
        assert(log.last() == log[log.len() - 1]);
        lemma_no_service_part(log.drop_last());
    }
}

proof fn lemma_served_nothing<B: HermesPlatform, S: HermesService>(
    trace: HermesTrace<B>,
    earlier: HermesTrace<B>,
    service: S,
)
    requires
        earlier.log().len() <= trace.log().len(),
        forall|i: int|
            earlier.log().len() <= i < trace.log().len() ==> (
            #[trigger] trace.log()[i]).service_call() is None,
    ensures
        served(trace, earlier, service, service),
{
    let new = trace.log().skip(earlier.log().len() as int);
    assert forall|i: int| 0 <= i < new.len() implies (#[trigger] new[i]).service_call() is None by {
        assert(new[i] == trace.log()[earlier.log().len() + i]);
    }
    lemma_no_service_part(new);
}

proof fn lemma_served_both<B: HermesPlatform, S: HermesService>(
    trace: HermesTrace<B>,
    middle: HermesTrace<B>,
    earlier: HermesTrace<B>,
    service: S,
    between: S,
    before: S,
)
    requires
        crate::trace::continues(trace.log(), middle.log()),
        crate::trace::continues(middle.log(), earlier.log()),
        served(trace, middle, service, between),
        served(middle, earlier, between, before),
    ensures
        served(trace, earlier, service, before),
{
    let first = middle.log().skip(earlier.log().len() as int);
    let second = trace.log().skip(middle.log().len() as int);
    assert(trace.log().skip(earlier.log().len() as int) =~= first + second);
    lemma_service_part_of_both(first, second);
    assert(service.history() =~= before.history() + (service_part(first) + service_part(second)));
}

pub broadcast proof fn lemma_follows_itself<B: HermesPlatform>(
    trace: HermesTrace<B>,
)
    ensures
        #[trigger] trace.follows(trace),
{
    reveal(HermesTrace::follows);
    crate::trace::lemma_told_nothing(trace.log(), trace.platform.history(), of_platform());
}

pub broadcast proof fn lemma_follows_continues<B: HermesPlatform>(
    trace: HermesTrace<B>,
    earlier: HermesTrace<B>,
)
    requires
        #[trigger] trace.follows(earlier),
    ensures
        crate::trace::continues(trace.log(), earlier.log()),
{
    reveal(HermesTrace::follows);
}

pub broadcast proof fn lemma_follows_through<B: HermesPlatform>(
    trace: HermesTrace<B>,
    middle: HermesTrace<B>,
    earlier: HermesTrace<B>,
)
    requires
        #[trigger] trace.follows(middle),
        #[trigger] middle.follows(earlier),
    ensures
        trace.follows(earlier),
{
    reveal(HermesTrace::follows);
    let platform = of_platform::<B>();
    lemma_grew_through(trace, middle, earlier, platform, platform, platform);
}

pub broadcast proof fn lemma_with_continues<B: HermesPlatform, C: HermesCodec>(
    trace: HermesTrace<B>,
    earlier: HermesTrace<B>,
    codec: C,
)
    requires
        #[trigger] trace.follows_with(earlier, codec),
    ensures
        crate::trace::continues(trace.log(), earlier.log()),
{
    reveal(HermesTrace::follows_with);
}

pub broadcast proof fn lemma_with_through<B: HermesPlatform, C: HermesCodec>(
    trace: HermesTrace<B>,
    middle: HermesTrace<B>,
    earlier: HermesTrace<B>,
    codec: C,
)
    requires
        #[trigger] trace.follows_with(middle, codec),
        #[trigger] middle.follows_with(earlier, codec),
    ensures
        trace.follows_with(earlier, codec),
{
    reveal(HermesTrace::follows_with);
    let said = |event: HermesEvent<B>| event.of_platform() || event.said_by(codec);
    lemma_grew_through(trace, middle, earlier, said, said, said);
}

pub broadcast proof fn lemma_with_after<B: HermesPlatform, C: HermesCodec>(
    trace: HermesTrace<B>,
    middle: HermesTrace<B>,
    earlier: HermesTrace<B>,
    codec: C,
)
    requires
        #[trigger] trace.follows_with(middle, codec),
        #[trigger] middle.follows(earlier),
    ensures
        trace.follows_with(earlier, codec),
{
    reveal(HermesTrace::follows_with);
    reveal(HermesTrace::follows);
    let said = |event: HermesEvent<B>| event.of_platform() || event.said_by(codec);
    let platform = of_platform::<B>();
    lemma_grew_through(trace, middle, earlier, said, platform, said);
}

pub broadcast proof fn lemma_with_before<B: HermesPlatform, C: HermesCodec>(
    trace: HermesTrace<B>,
    middle: HermesTrace<B>,
    earlier: HermesTrace<B>,
    codec: C,
)
    requires
        #[trigger] trace.follows(middle),
        #[trigger] middle.follows_with(earlier, codec),
    ensures
        trace.follows_with(earlier, codec),
{
    reveal(HermesTrace::follows_with);
    reveal(HermesTrace::follows);
    let said = |event: HermesEvent<B>| event.of_platform() || event.said_by(codec);
    let platform = of_platform::<B>();
    lemma_grew_through(trace, middle, earlier, platform, said, said);
}

pub broadcast proof fn lemma_with_of<B: HermesPlatform, C: HermesCodec>(
    trace: HermesTrace<B>,
    earlier: HermesTrace<B>,
    codec: C,
)
    requires
        trace.follows(earlier),
    ensures
        #[trigger] trace.follows_with(earlier, codec),
{
    reveal(HermesTrace::follows_with);
    reveal(HermesTrace::follows);
}

pub broadcast proof fn lemma_served_continues<B: HermesPlatform, C: HermesCodec, S: HermesService>(
    trace: HermesTrace<B>,
    earlier: HermesTrace<B>,
    codec: C,
    service: S,
    before: S,
)
    requires
        #[trigger] trace.follows_served(earlier, codec, service, before),
    ensures
        crate::trace::continues(trace.log(), earlier.log()),
{
    reveal(HermesTrace::follows_served);
}

pub broadcast proof fn lemma_served_through<B: HermesPlatform, C: HermesCodec, S: HermesService>(
    trace: HermesTrace<B>,
    middle: HermesTrace<B>,
    earlier: HermesTrace<B>,
    codec: C,
    service: S,
    between: S,
    before: S,
)
    requires
        #[trigger] trace.follows_served(middle, codec, service, between),
        #[trigger] middle.follows_served(earlier, codec, between, before),
    ensures
        trace.follows_served(earlier, codec, service, before),
{
    reveal(HermesTrace::follows_served);
    let asked = |event: HermesEvent<B>|
            event.of_platform() || event.said_by(codec) || event.service_call() is Some;
    lemma_grew_through(trace, middle, earlier, asked, asked, asked);
    lemma_served_both(trace, middle, earlier, service, between, before);
}

pub broadcast proof fn lemma_served_after<B: HermesPlatform, C: HermesCodec, S: HermesService>(
    trace: HermesTrace<B>,
    middle: HermesTrace<B>,
    earlier: HermesTrace<B>,
    codec: C,
    service: S,
    before: S,
)
    requires
        #[trigger] trace.follows_served(middle, codec, service, before),
        #[trigger] middle.follows(earlier),
    ensures
        trace.follows_served(earlier, codec, service, before),
{
    reveal(HermesTrace::follows_served);
    reveal(HermesTrace::follows);
    let asked = |event: HermesEvent<B>|
            event.of_platform() || event.said_by(codec) || event.service_call() is Some;
    let platform = of_platform::<B>();
    lemma_grew_through(trace, middle, earlier, asked, platform, asked);
    lemma_served_nothing(middle, earlier, before);
    lemma_served_both(trace, middle, earlier, service, before, before);
}

pub broadcast proof fn lemma_served_before<B: HermesPlatform, C: HermesCodec, S: HermesService>(
    trace: HermesTrace<B>,
    middle: HermesTrace<B>,
    earlier: HermesTrace<B>,
    codec: C,
    service: S,
    before: S,
)
    requires
        #[trigger] trace.follows(middle),
        #[trigger] middle.follows_served(earlier, codec, service, before),
    ensures
        trace.follows_served(earlier, codec, service, before),
{
    reveal(HermesTrace::follows_served);
    reveal(HermesTrace::follows);
    let asked = |event: HermesEvent<B>|
            event.of_platform() || event.said_by(codec) || event.service_call() is Some;
    let platform = of_platform::<B>();
    lemma_grew_through(trace, middle, earlier, platform, asked, asked);
    lemma_served_nothing(trace, middle, service);
    lemma_served_both(trace, middle, earlier, service, service, before);
}

pub broadcast proof fn lemma_served_after_with<B: HermesPlatform, C: HermesCodec, S: HermesService>(
    trace: HermesTrace<B>,
    middle: HermesTrace<B>,
    earlier: HermesTrace<B>,
    codec: C,
    service: S,
    before: S,
)
    requires
        #[trigger] trace.follows_served(middle, codec, service, before),
        #[trigger] middle.follows_with(earlier, codec),
    ensures
        trace.follows_served(earlier, codec, service, before),
{
    reveal(HermesTrace::follows_served);
    reveal(HermesTrace::follows_with);
    let asked = |event: HermesEvent<B>|
            event.of_platform() || event.said_by(codec) || event.service_call() is Some;
    let said = |event: HermesEvent<B>| event.of_platform() || event.said_by(codec);
    lemma_grew_through(trace, middle, earlier, asked, said, asked);
    lemma_served_nothing(middle, earlier, before);
    lemma_served_both(trace, middle, earlier, service, before, before);
}

pub broadcast proof fn lemma_served_of<B: HermesPlatform, C: HermesCodec, S: HermesService>(
    trace: HermesTrace<B>,
    earlier: HermesTrace<B>,
    codec: C,
    service: S,
)
    requires
        trace.follows(earlier),
    ensures
        #[trigger] trace.follows_served(earlier, codec, service, service),
{
    reveal(HermesTrace::follows_served);
    reveal(HermesTrace::follows);
    lemma_served_nothing(trace, earlier, service);
}

pub broadcast proof fn lemma_served_of_with<B: HermesPlatform, C: HermesCodec, S: HermesService>(
    trace: HermesTrace<B>,
    earlier: HermesTrace<B>,
    codec: C,
    service: S,
)
    requires
        trace.follows_with(earlier, codec),
    ensures
        #[trigger] trace.follows_served(earlier, codec, service, service),
{
    reveal(HermesTrace::follows_served);
    reveal(HermesTrace::follows_with);
    lemma_served_nothing(trace, earlier, service);
}

pub broadcast proof fn lemma_vouched_continues<
    B: HermesPlatform,
    C: HermesCodec,
    F: FirmwareAuthority,
>(
    trace: HermesTrace<B>,
    earlier: HermesTrace<B>,
    codec: C,
    authority: F,
)
    requires
        #[trigger] trace.follows_vouched(earlier, codec, authority),
    ensures
        crate::trace::continues(trace.log(), earlier.log()),
{
    reveal(HermesTrace::follows_vouched);
}

pub broadcast proof fn lemma_vouched_after<
    B: HermesPlatform,
    C: HermesCodec,
    F: FirmwareAuthority,
>(
    trace: HermesTrace<B>,
    middle: HermesTrace<B>,
    earlier: HermesTrace<B>,
    codec: C,
    authority: F,
)
    requires
        #[trigger] trace.follows_vouched(middle, codec, authority),
        #[trigger] middle.follows(earlier),
    ensures
        trace.follows_vouched(earlier, codec, authority),
{
    reveal(HermesTrace::follows_vouched);
    reveal(HermesTrace::follows);
    let vouched = |event: HermesEvent<B>|
            event.of_platform() || event.said_by(codec) || event.vouched_by(authority);
    let platform = of_platform::<B>();
    lemma_grew_through(trace, middle, earlier, vouched, platform, vouched);
}

pub broadcast proof fn lemma_vouched_before<
    B: HermesPlatform,
    C: HermesCodec,
    F: FirmwareAuthority,
>(
    trace: HermesTrace<B>,
    middle: HermesTrace<B>,
    earlier: HermesTrace<B>,
    codec: C,
    authority: F,
)
    requires
        #[trigger] trace.follows(middle),
        #[trigger] middle.follows_vouched(earlier, codec, authority),
    ensures
        trace.follows_vouched(earlier, codec, authority),
{
    reveal(HermesTrace::follows_vouched);
    reveal(HermesTrace::follows);
    let vouched = |event: HermesEvent<B>|
            event.of_platform() || event.said_by(codec) || event.vouched_by(authority);
    let platform = of_platform::<B>();
    lemma_grew_through(trace, middle, earlier, platform, vouched, vouched);
}

pub broadcast proof fn lemma_vouched_before_with<
    B: HermesPlatform,
    C: HermesCodec,
    F: FirmwareAuthority,
>(
    trace: HermesTrace<B>,
    middle: HermesTrace<B>,
    earlier: HermesTrace<B>,
    codec: C,
    authority: F,
)
    requires
        #[trigger] trace.follows_with(middle, codec),
        #[trigger] middle.follows_vouched(earlier, codec, authority),
    ensures
        trace.follows_vouched(earlier, codec, authority),
{
    reveal(HermesTrace::follows_vouched);
    reveal(HermesTrace::follows_with);
    let vouched = |event: HermesEvent<B>|
            event.of_platform() || event.said_by(codec) || event.vouched_by(authority);
    let said = |event: HermesEvent<B>| event.of_platform() || event.said_by(codec);
    lemma_grew_through(trace, middle, earlier, said, vouched, vouched);
}

pub broadcast proof fn lemma_vouched_of<
    B: HermesPlatform,
    C: HermesCodec,
    F: FirmwareAuthority,
>(
    trace: HermesTrace<B>,
    earlier: HermesTrace<B>,
    codec: C,
    authority: F,
)
    requires
        trace.follows(earlier),
    ensures
        #[trigger] trace.follows_vouched(earlier, codec, authority),
{
    reveal(HermesTrace::follows_vouched);
    reveal(HermesTrace::follows);
}

pub(crate) proof fn lemma_asked_platform<B: HermesPlatform>(
    before: HermesTrace<B>,
    after: HermesTrace<B>,
    entry: HermesEvent<B>,
)
    requires
        entry.of_platform(),
        after.log() == before.log().push(entry),
        after.platform.history() == before.platform.history().push(entry),
    ensures
        after.follows(before),
{
    reveal(HermesTrace::follows);
    lemma_grew_one(before, after, entry, of_platform());
}

pub(crate) proof fn lemma_asked_codec<B: HermesPlatform, C: HermesCodec>(
    before: HermesTrace<B>,
    after: HermesTrace<B>,
    codec: C,
    entry: HermesEvent<B>,
)
    requires
        entry.said_by(codec),
        after.log() == before.log().push(entry),
        after.platform == before.platform,
    ensures
        after.follows_with(before, codec),
{
    reveal(HermesTrace::follows_with);
    let kind = |event: HermesEvent<B>| event.of_platform() || event.said_by(codec);
    lemma_grew_one(before, after, entry, kind);
}

pub(crate) proof fn lemma_asked_authority<B: HermesPlatform, C: HermesCodec, F: FirmwareAuthority>(
    before: HermesTrace<B>,
    after: HermesTrace<B>,
    codec: C,
    authority: F,
    entry: HermesEvent<B>,
)
    requires
        entry.vouched_by(authority),
        after.log() == before.log().push(entry),
        after.platform == before.platform,
    ensures
        after.follows_vouched(before, codec, authority),
{
    reveal(HermesTrace::follows_vouched);
    let kind = |event: HermesEvent<B>|
            event.of_platform() || event.said_by(codec) || event.vouched_by(authority);
    lemma_grew_one(before, after, entry, kind);
}

pub(crate) proof fn lemma_asked_service<B: HermesPlatform, C: HermesCodec, S: HermesService>(
    before: HermesTrace<B>,
    after: HermesTrace<B>,
    codec: C,
    service: S,
    earlier: S,
    entry: HermesEvent<B>,
)
    requires
        entry.service_call() matches Some(call) && service.history() == earlier.history().push(
            call,
        ),
        after.log() == before.log().push(entry),
        after.platform == before.platform,
    ensures
        after.follows_served(before, codec, service, earlier),
{
    reveal(HermesTrace::follows_served);
    let kind = |event: HermesEvent<B>|
            event.of_platform() || event.said_by(codec) || event.service_call() is Some;
    lemma_grew_one(before, after, entry, kind);
    let new = after.log().skip(before.log().len() as int);
    assert(new =~= seq![entry]);
    assert(new.drop_last() =~= Seq::<HermesEvent<B>>::empty());
    assert(service_part(new.drop_last()) =~= Seq::<ServiceCall>::empty());
    assert(service.history() =~= earlier.history() + service_part(new));
}

} // verus!
