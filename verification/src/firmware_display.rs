//! The framebuffers that firmware left, and the signature drawn into one.

use crate::drivernet::fingerprint::FirmwareFramebufferEvidence;
use crate::mmio::MmioAccessError;
use crate::seal::{mix, Sealer};
use crate::status::STATUS_OK;
use vstd::prelude::*;

verus! {

pub const MAXIMUM_FIRMWARE_DISPLAYS: usize = 4;

pub const FRAMEBUFFER_FORMAT_XRGB8888: u32 = 1;

pub const FRAMEBUFFER_FORMAT_XBGR8888: u32 = 2;

pub const FRAMEBUFFER_FORMAT_RGB565: u32 = 3;

#[derive(Clone, Copy, Debug, PartialEq, Eq, Structural)]
pub enum FirmwareDisplayError {
    InvalidEvidence,
    AddressOverflow,
    Capacity,
    NotFound,
    StaleObject,
    DomainMismatch,
    RefcountOverflow,
    PixelOutOfBounds,
    UnsupportedFormat,
    Mapping(MmioAccessError),
    Unmap(i32),
    VerificationFault,
}

impl From<MmioAccessError> for FirmwareDisplayError {
    fn from(error: MmioAccessError) -> (display: Self) {
        FirmwareDisplayError::Mapping(error)
    }
}

impl vstd::std_specs::convert::FromSpecImpl<MmioAccessError> for FirmwareDisplayError {
    open spec fn obeys_from_spec() -> bool {
        true
    }

    open spec fn from_spec(error: MmioAccessError) -> Self {
        FirmwareDisplayError::Mapping(error)
    }
}

#[derive(Clone, Copy, Debug, PartialEq, Eq, Structural)]
pub struct FirmwareColor {
    pub red: u8,
    pub green: u8,
    pub blue: u8,
}

impl FirmwareColor {
    #[verifier::allow_in_spec]
    pub fn black() -> FirmwareColor
        returns
            (FirmwareColor { red: 0, green: 0, blue: 0 }),
    {
        FirmwareColor { red: 0, green: 0, blue: 0 }
    }
}

#[derive(Clone, Copy, Debug, PartialEq, Eq, Structural)]
pub struct FirmwareBootSignatureReport {
    pub object: u64,
    pub generation: u32,
    pub stripe_height: u32,
    pub pixels_written: u64,
    pub pixels_verified: u64,
    pub image_root: u64,
}

#[derive(Clone, Copy, Debug, PartialEq, Eq, Structural)]
pub struct FirmwareDisplaySnapshot {
    pub object: u64,
    pub generation: u32,
    pub evidence: FirmwareFramebufferEvidence,
    pub retain_count: u32,
    pub state_root: u64,
}

/// How many bytes a pixel of a format takes.
#[verifier::allow_in_spec]
pub fn bytes_per_pixel(format: u32) -> Option<u32>
    returns
        (if format == FRAMEBUFFER_FORMAT_XRGB8888 || format == FRAMEBUFFER_FORMAT_XBGR8888 {
            Some(4u32)
        } else if format == FRAMEBUFFER_FORMAT_RGB565 {
            Some(2u32)
        } else {
            None::<u32>
        }),
{
    if format == FRAMEBUFFER_FORMAT_XRGB8888 || format == FRAMEBUFFER_FORMAT_XBGR8888 {
        Some(4)
    } else if format == FRAMEBUFFER_FORMAT_RGB565 {
        Some(2)
    } else {
        None
    }
}

/// What the evidence of a framebuffer is refused for.
pub open spec fn evidence_fault(evidence: FirmwareFramebufferEvidence) -> Option<
    FirmwareDisplayError,
> {
    if !evidence.usable() {
        Some(FirmwareDisplayError::InvalidEvidence)
    } else {
        match bytes_per_pixel(evidence.format) {
            None => Some(FirmwareDisplayError::InvalidEvidence),
            Some(bytes) => if evidence.width * bytes > u32::MAX {
                Some(FirmwareDisplayError::AddressOverflow)
            } else if evidence.pitch < evidence.width * bytes || evidence.pitch % bytes != 0
                || evidence.physical_address % (bytes as u64) != 0 {
                Some(FirmwareDisplayError::InvalidEvidence)
            } else if evidence.byte_length < evidence.pitch * evidence.height
                || evidence.physical_address + evidence.byte_length > u64::MAX {
                Some(FirmwareDisplayError::AddressOverflow)
            } else {
                None
            },
        }
    }
}

pub fn validate_evidence(evidence: FirmwareFramebufferEvidence) -> (result: Result<
    (),
    FirmwareDisplayError,
>)
    ensures
        match evidence_fault(evidence) {
            Some(error) => result == Err::<(), FirmwareDisplayError>(error),
            None => result is Ok,
        },
{
    if !evidence.usable() {
        return Err(FirmwareDisplayError::InvalidEvidence);
    }
    let bytes: u32 = match bytes_per_pixel(evidence.format) {
        None => {
            return Err(FirmwareDisplayError::InvalidEvidence);
        },
        Some(bytes) => bytes,
    };
    let minimum_pitch: u32 = match evidence.width.checked_mul(bytes) {
        None => {
            return Err(FirmwareDisplayError::AddressOverflow);
        },
        Some(pitch) => pitch,
    };
    if evidence.pitch < minimum_pitch || evidence.pitch % bytes != 0
        || evidence.physical_address % (bytes as u64) != 0 {
        return Err(FirmwareDisplayError::InvalidEvidence);
    }
    let required: u64 = match (evidence.pitch as u64).checked_mul(evidence.height as u64) {
        None => {
            return Err(FirmwareDisplayError::AddressOverflow);
        },
        Some(required) => required,
    };
    if evidence.byte_length < required {
        return Err(FirmwareDisplayError::AddressOverflow);
    }
    match evidence.physical_address.checked_add(evidence.byte_length) {
        None => Err(FirmwareDisplayError::AddressOverflow),
        Some(_) => Ok(()),
    }
}

/// The words that stand for a framebuffer.
pub open spec fn geometry_words(evidence: FirmwareFramebufferEvidence) -> Seq<u64> {
    seq![
        evidence.physical_address,
        evidence.byte_length,
        evidence.width as u64 | ((evidence.height as u64) << 32),
        evidence.pitch as u64 | ((evidence.format as u64) << 32),
    ]
}

/// The tag that binds a framebuffer to the secret of its domain.
pub open spec fn domain_tag_of(secret: u64, evidence: FirmwareFramebufferEvidence) -> u64 {
    crate::seal::seal_of(secret, geometry_words(evidence))
}

fn evidence_domain_tag(secret: u64, evidence: FirmwareFramebufferEvidence) -> (tag: u64)
    ensures
        tag == domain_tag_of(secret, evidence),
{
    Sealer::new(secret).word(evidence.physical_address).word(evidence.byte_length).word(
        evidence.width as u64 | ((evidence.height as u64) << 32),
    ).word(evidence.pitch as u64 | ((evidence.format as u64) << 32)).root()
}

/// The object that stands for a framebuffer in one generation.
pub open spec fn object_of(
    secret: u64,
    evidence: FirmwareFramebufferEvidence,
    generation: u32,
) -> u64 {
    let object = crate::seal::mix_of(domain_tag_of(secret, evidence), generation as u64);
    if object == 0 {
        1
    } else {
        object
    }
}

pub open spec fn display_words(
    object: u64,
    generation: u32,
    evidence: FirmwareFramebufferEvidence,
    retain_count: u32,
) -> Seq<u64> {
    seq![object, generation as u64] + geometry_words(evidence).push(retain_count as u64)
}

fn display_root(
    secret: u64,
    object: u64,
    generation: u32,
    evidence: FirmwareFramebufferEvidence,
    retain_count: u32,
) -> (root: u64)
    ensures
        root == crate::seal::seal_of(
            secret,
            display_words(object, generation, evidence, retain_count),
        ),
{
    let sealer = Sealer::new(secret).word(object).word(generation as u64).word(
        evidence.physical_address,
    ).word(evidence.byte_length).word(
        evidence.width as u64 | ((evidence.height as u64) << 32),
    ).word(evidence.pitch as u64 | ((evidence.format as u64) << 32)).word(retain_count as u64);
    assert(sealer.words() =~= display_words(object, generation, evidence, retain_count));
    sealer.root()
}

/// A framebuffer that the table knows.
#[derive(Clone, Copy, Debug, PartialEq, Eq, Structural)]
pub struct FirmwareDisplaySlot {
    pub object: u64,
    pub generation: u32,
    pub evidence: FirmwareFramebufferEvidence,
    pub retain_count: u32,
    pub domain_tag: u64,
    pub state_root: u64,
}

impl FirmwareDisplaySlot {
    #[verifier::allow_in_spec]
    pub fn snapshot(self) -> FirmwareDisplaySnapshot
        returns
            (FirmwareDisplaySnapshot {
                object: self.object,
                generation: self.generation,
                evidence: self.evidence,
                retain_count: self.retain_count,
                state_root: self.state_root,
            }),
    {
        FirmwareDisplaySnapshot {
            object: self.object,
            generation: self.generation,
            evidence: self.evidence,
            retain_count: self.retain_count,
            state_root: self.state_root,
        }
    }

    /// Whether the slot is that of a framebuffer under a tag.
    #[verifier::allow_in_spec]
    pub fn describes(self, tag: u64, evidence: FirmwareFramebufferEvidence) -> bool
        returns
            (self.domain_tag == tag && self.evidence.physical_address == evidence.physical_address
                && self.evidence.byte_length == evidence.byte_length && self.evidence.width
                == evidence.width && self.evidence.height == evidence.height
                && self.evidence.pitch == evidence.pitch && self.evidence.format
                == evidence.format),
    {
        self.domain_tag == tag && self.evidence.physical_address == evidence.physical_address
            && self.evidence.byte_length == evidence.byte_length && self.evidence.width
            == evidence.width && self.evidence.height == evidence.height && self.evidence.pitch
            == evidence.pitch && self.evidence.format == evidence.format
    }

    /// The slot with another count, sealed.
    pub open spec fn counted(self, secret: u64, retain_count: u32) -> FirmwareDisplaySlot {
        FirmwareDisplaySlot {
            retain_count,
            state_root: crate::seal::seal_of(
                secret,
                display_words(self.object, self.generation, self.evidence, retain_count),
            ),
            ..self
        }
    }
}

/// The slot of a framebuffer that nobody has retained yet.
pub open spec fn fresh_slot(
    secret: u64,
    evidence: FirmwareFramebufferEvidence,
    generation: u32,
) -> FirmwareDisplaySlot {
    FirmwareDisplaySlot {
        object: object_of(secret, evidence, generation),
        generation,
        evidence,
        retain_count: 0,
        domain_tag: domain_tag_of(secret, evidence),
        state_root: crate::seal::seal_of(
            secret,
            display_words(object_of(secret, evidence, generation), generation, evidence, 0),
        ),
    }
}

/// The known framebuffers, oldest first.
pub struct FirmwareDisplayTable {
    pub slots: Vec<FirmwareDisplaySlot>,
    pub next_generation: u32,
}

/// The place of a framebuffer under a tag, from one on.
pub open spec fn place_described(
    slots: Seq<FirmwareDisplaySlot>,
    tag: u64,
    evidence: FirmwareFramebufferEvidence,
    from: int,
) -> Option<int>
    decreases slots.len() - from,
{
    if from < 0 || from >= slots.len() {
        None
    } else if slots[from].describes(tag, evidence) {
        Some(from)
    } else {
        place_described(slots, tag, evidence, from + 1)
    }
}

/// The place of an object, from one on.
pub open spec fn place_of_object(slots: Seq<FirmwareDisplaySlot>, object: u64, from: int) -> Option<
    int,
>
    decreases slots.len() - from,
{
    if from < 0 || from >= slots.len() {
        None
    } else if slots[from].object == object {
        Some(from)
    } else {
        place_of_object(slots, object, from + 1)
    }
}

/// The snapshot of an object.
pub open spec fn snapshot_of(slots: Seq<FirmwareDisplaySlot>, object: u64) -> Option<
    FirmwareDisplaySnapshot,
> {
    match place_of_object(slots, object, 0) {
        Some(place) => Some(slots[place].snapshot()),
        None => None,
    }
}

/// The generation after one. Zero is never used.
pub open spec fn generation_after(generation: u32) -> u32 {
    if generation == u32::MAX {
        1
    } else {
        (generation + 1) as u32
    }
}

pub open spec fn generation_now(next_generation: u32) -> u32 {
    if next_generation == 0 {
        1
    } else {
        next_generation
    }
}

/// What inspecting a framebuffer does to a table.
pub open spec fn inspects(
    before: FirmwareDisplayTable,
    evidence: FirmwareFramebufferEvidence,
    secret: u64,
    after: FirmwareDisplayTable,
    result: Result<FirmwareDisplaySnapshot, FirmwareDisplayError>,
) -> bool {
    let refused = match evidence_fault(evidence) {
        Some(error) => Some(error),
        None => if secret == 0 {
            Some(FirmwareDisplayError::InvalidEvidence)
        } else {
            None
        },
    };
    let known = place_described(before.slots@, domain_tag_of(secret, evidence), evidence, 0);
    match refused {
        Some(error) => result == Err::<FirmwareDisplaySnapshot, _>(error) && after == before,
        None => match known {
            Some(place) => result == Ok::<FirmwareDisplaySnapshot, FirmwareDisplayError>(
                before.slots@[place].snapshot(),
            ) && after == before,
            None => if before.slots@.len() >= MAXIMUM_FIRMWARE_DISPLAYS {
                result == Err::<FirmwareDisplaySnapshot, _>(FirmwareDisplayError::Capacity)
                    && after == before
            } else {
                let slot = fresh_slot(secret, evidence, generation_now(before.next_generation));
                &&& result == Ok::<FirmwareDisplaySnapshot, FirmwareDisplayError>(slot.snapshot())
                &&& after.slots@ == before.slots@.push(slot)
                &&& after.next_generation == generation_after(before.next_generation)
            },
        },
    }
}

/// What counting an object anew does to a table, where the count may change.
pub open spec fn recounts(
    before: FirmwareDisplayTable,
    place: int,
    secret: u64,
    count: u32,
    after: FirmwareDisplayTable,
    result: Result<FirmwareDisplaySnapshot, FirmwareDisplayError>,
) -> bool {
    let slot = before.slots@[place].counted(secret, count);
    &&& result == Ok::<FirmwareDisplaySnapshot, FirmwareDisplayError>(slot.snapshot())
    &&& after.slots@ == before.slots@.update(place, slot)
    &&& after.next_generation == before.next_generation
}

/// What retaining an object does to a table.
pub open spec fn retains(
    before: FirmwareDisplayTable,
    object: u64,
    secret: u64,
    after: FirmwareDisplayTable,
    result: Result<FirmwareDisplaySnapshot, FirmwareDisplayError>,
) -> bool {
    match place_of_object(before.slots@, object, 0) {
        None => result == Err::<FirmwareDisplaySnapshot, _>(FirmwareDisplayError::NotFound)
            && after == before,
        Some(place) => {
            let slot = before.slots@[place];
            if slot.domain_tag != domain_tag_of(secret, slot.evidence) {
                result == Err::<FirmwareDisplaySnapshot, _>(FirmwareDisplayError::DomainMismatch)
                    && after == before
            } else if slot.retain_count == u32::MAX {
                result == Err::<FirmwareDisplaySnapshot, _>(FirmwareDisplayError::RefcountOverflow)
                    && after == before
            } else {
                recounts(before, place, secret, (slot.retain_count + 1) as u32, after, result)
            }
        },
    }
}

/// What releasing an object does to a table.
pub open spec fn releases(
    before: FirmwareDisplayTable,
    object: u64,
    secret: u64,
    after: FirmwareDisplayTable,
    result: Result<FirmwareDisplaySnapshot, FirmwareDisplayError>,
) -> bool {
    match place_of_object(before.slots@, object, 0) {
        None => result == Err::<FirmwareDisplaySnapshot, _>(FirmwareDisplayError::NotFound)
            && after == before,
        Some(place) => {
            let slot = before.slots@[place];
            if slot.domain_tag != domain_tag_of(secret, slot.evidence) {
                result == Err::<FirmwareDisplaySnapshot, _>(FirmwareDisplayError::DomainMismatch)
                    && after == before
            } else if slot.retain_count == 0 {
                result == Err::<FirmwareDisplaySnapshot, _>(FirmwareDisplayError::StaleObject)
                    && after == before
            } else {
                recounts(before, place, secret, (slot.retain_count - 1) as u32, after, result)
            }
        },
    }
}

impl FirmwareDisplayTable {
    pub fn new() -> (table: Self)
        ensures
            table.slots@ == Seq::<FirmwareDisplaySlot>::empty(),
            table.next_generation == 1,
    {
        FirmwareDisplayTable { slots: Vec::new(), next_generation: 1 }
    }

    fn find_described(&self, tag: u64, evidence: FirmwareFramebufferEvidence) -> (place: Option<
        usize,
    >)
        ensures
            place_described(self.slots@, tag, evidence, 0) == (match place {
                Some(index) => Some(index as int),
                None => None::<int>,
            }),
            place matches Some(index) ==> index < self.slots@.len(),
    {
        let mut index: usize = 0;
        while index < self.slots.len()
            invariant
                index <= self.slots@.len(),
                place_described(self.slots@, tag, evidence, 0) == place_described(
                    self.slots@,
                    tag,
                    evidence,
                    index as int,
                ),
            decreases self.slots@.len() - index,
        {
            if self.slots[index].describes(tag, evidence) {
                return Some(index);
            }
            index = index + 1;
        }
        None
    }

    fn find_object(&self, object: u64) -> (place: Option<usize>)
        ensures
            place_of_object(self.slots@, object, 0) == (match place {
                Some(index) => Some(index as int),
                None => None::<int>,
            }),
            place matches Some(index) ==> index < self.slots@.len(),
    {
        let mut index: usize = 0;
        while index < self.slots.len()
            invariant
                index <= self.slots@.len(),
                place_of_object(self.slots@, object, 0) == place_of_object(
                    self.slots@,
                    object,
                    index as int,
                ),
            decreases self.slots@.len() - index,
        {
            if self.slots[index].object == object {
                return Some(index);
            }
            index = index + 1;
        }
        None
    }

    pub fn inspect(&mut self, evidence: FirmwareFramebufferEvidence, secret: u64) -> (result:
        Result<FirmwareDisplaySnapshot, FirmwareDisplayError>)
        ensures
            inspects(*old(self), evidence, secret, *final(self), result),
    {
        match validate_evidence(evidence) {
            Err(error) => {
                return Err(error);
            },
            Ok(()) => {},
        }
        if secret == 0 {
            return Err(FirmwareDisplayError::InvalidEvidence);
        }
        let tag: u64 = evidence_domain_tag(secret, evidence);
        match self.find_described(tag, evidence) {
            Some(index) => {
                return Ok(self.slots[index].snapshot());
            },
            None => {},
        }
        if self.slots.len() >= MAXIMUM_FIRMWARE_DISPLAYS {
            return Err(FirmwareDisplayError::Capacity);
        }
        let generation: u32 = if self.next_generation == 0 {
            1
        } else {
            self.next_generation
        };
        self.next_generation = if self.next_generation == u32::MAX {
            1
        } else {
            self.next_generation + 1
        };
        let mixed: u64 = mix(tag, generation as u64);
        let object: u64 = if mixed == 0 {
            1
        } else {
            mixed
        };
        let slot = FirmwareDisplaySlot {
            object,
            generation,
            evidence,
            retain_count: 0,
            domain_tag: tag,
            state_root: display_root(secret, object, generation, evidence, 0),
        };
        self.slots.push(slot);
        Ok(slot.snapshot())
    }

    pub fn retain(&mut self, object: u64, secret: u64) -> (result: Result<
        FirmwareDisplaySnapshot,
        FirmwareDisplayError,
    >)
        ensures
            retains(*old(self), object, secret, *final(self), result),
    {
        let index: usize = match self.find_object(object) {
            None => {
                return Err(FirmwareDisplayError::NotFound);
            },
            Some(index) => index,
        };
        let mut slot = self.slots[index];
        if slot.domain_tag != evidence_domain_tag(secret, slot.evidence) {
            return Err(FirmwareDisplayError::DomainMismatch);
        }
        if slot.retain_count == u32::MAX {
            return Err(FirmwareDisplayError::RefcountOverflow);
        }
        slot.retain_count = slot.retain_count + 1;
        slot.state_root = display_root(
            secret,
            slot.object,
            slot.generation,
            slot.evidence,
            slot.retain_count,
        );
        self.slots.set(index, slot);
        Ok(slot.snapshot())
    }

    pub fn release(&mut self, object: u64, secret: u64) -> (result: Result<
        FirmwareDisplaySnapshot,
        FirmwareDisplayError,
    >)
        ensures
            releases(*old(self), object, secret, *final(self), result),
    {
        let index: usize = match self.find_object(object) {
            None => {
                return Err(FirmwareDisplayError::NotFound);
            },
            Some(index) => index,
        };
        let mut slot = self.slots[index];
        if slot.domain_tag != evidence_domain_tag(secret, slot.evidence) {
            return Err(FirmwareDisplayError::DomainMismatch);
        }
        if slot.retain_count == 0 {
            return Err(FirmwareDisplayError::StaleObject);
        }
        slot.retain_count = slot.retain_count - 1;
        slot.state_root = display_root(
            secret,
            slot.object,
            slot.generation,
            slot.evidence,
            slot.retain_count,
        );
        self.slots.set(index, slot);
        Ok(slot.snapshot())
    }

    pub fn snapshot(&self, object: u64) -> (snapshot: Option<FirmwareDisplaySnapshot>)
        ensures
            snapshot == snapshot_of(self.slots@, object),
    {
        match self.find_object(object) {
            Some(index) => Some(self.slots[index].snapshot()),
            None => None,
        }
    }
}

pub fn inspect(
    table: &mut FirmwareDisplayTable,
    evidence: FirmwareFramebufferEvidence,
    secret: u64,
) -> (result: Result<FirmwareDisplaySnapshot, FirmwareDisplayError>)
    ensures
        inspects(*old(table), evidence, secret, *final(table), result),
{
    table.inspect(evidence, secret)
}

pub fn retain(table: &mut FirmwareDisplayTable, object: u64, secret: u64) -> (result: Result<
    FirmwareDisplaySnapshot,
    FirmwareDisplayError,
>)
    ensures
        retains(*old(table), object, secret, *final(table), result),
{
    table.retain(object, secret)
}

pub fn release(table: &mut FirmwareDisplayTable, object: u64, secret: u64) -> (result: Result<
    FirmwareDisplaySnapshot,
    FirmwareDisplayError,
>)
    ensures
        releases(*old(table), object, secret, *final(table), result),
{
    table.release(object, secret)
}

pub fn snapshot(table: &FirmwareDisplayTable, object: u64) -> (snapshot: Option<
    FirmwareDisplaySnapshot,
>)
    ensures
        snapshot == snapshot_of(table.slots@, object),
{
    table.snapshot(object)
}

proof fn lemma_place_is_sound(slots: Seq<FirmwareDisplaySlot>, object: u64, from: int)
    requires
        0 <= from,
    ensures
        match place_of_object(slots, object, from) {
            Some(place) => from <= place < slots.len() && slots[place].object == object
                && forall|i: int| from <= i < place ==> (#[trigger] slots[i]).object != object,
            None => forall|i: int|
                from <= i < slots.len() ==> (#[trigger] slots[i]).object != object,
        },
    decreases slots.len() - from,
{
    if from < slots.len() && slots[from].object != object {
        lemma_place_is_sound(slots, object, from + 1);
    }
}

proof fn lemma_recount_keeps_places(
    slots: Seq<FirmwareDisplaySlot>,
    place: int,
    slot: FirmwareDisplaySlot,
    object: u64,
    from: int,
)
    requires
        0 <= from,
        0 <= place < slots.len(),
        slot.object == slots[place].object,
    ensures
        place_of_object(slots.update(place, slot), object, from) == place_of_object(
            slots,
            object,
            from,
        ),
    decreases slots.len() - from,
{
    if from < slots.len() {
        lemma_recount_keeps_places(slots, place, slot, object, from + 1);
    }
}

/// Retaining an object and releasing it again restores the table, seals and all,
/// where the seal of the object was sound before.
pub proof fn law_retain_and_release_balance(
    before: FirmwareDisplayTable,
    object: u64,
    secret: u64,
    held: FirmwareDisplayTable,
    retained: FirmwareDisplaySnapshot,
    after: FirmwareDisplayTable,
    released: Result<FirmwareDisplaySnapshot, FirmwareDisplayError>,
)
    requires
        retains(before, object, secret, held, Ok(retained)),
        releases(held, object, secret, after, released),
    ensures
        released matches Ok(snapshot) && snapshot.retain_count + 1 == retained.retain_count,
        place_of_object(before.slots@, object, 0) matches Some(place) && (before.slots@[place]
            == before.slots@[place].counted(secret, before.slots@[place].retain_count)
            ==> after.slots@ == before.slots@),
{
    lemma_place_is_sound(before.slots@, object, 0);
    match place_of_object(before.slots@, object, 0) {
        Some(place) => {
            let slot = before.slots@[place].counted(
                secret,
                (before.slots@[place].retain_count + 1) as u32,
            );
            lemma_recount_keeps_places(before.slots@, place, slot, object, 0);
            if before.slots@[place] == before.slots@[place].counted(
                secret,
                before.slots@[place].retain_count,
            ) {
                assert(after.slots@ =~= before.slots@);
            }
        },
        None => {},
    }
}

proof fn lemma_described_is_found(
    slots: Seq<FirmwareDisplaySlot>,
    tag: u64,
    evidence: FirmwareFramebufferEvidence,
    place: int,
    from: int,
)
    requires
        0 <= from <= place < slots.len(),
        slots[place].describes(tag, evidence),
        forall|i: int| from <= i < place ==> !(#[trigger] slots[i]).describes(tag, evidence),
    ensures
        place_described(slots, tag, evidence, from) == Some(place),
    decreases place - from,
{
    if from < place {
        lemma_described_is_found(slots, tag, evidence, place, from + 1);
    }
}

proof fn lemma_described_is_sound(
    slots: Seq<FirmwareDisplaySlot>,
    tag: u64,
    evidence: FirmwareFramebufferEvidence,
    from: int,
)
    requires
        0 <= from,
    ensures
        match place_described(slots, tag, evidence, from) {
            Some(place) => from <= place < slots.len() && slots[place].describes(tag, evidence)
                && forall|i: int|
                from <= i < place ==> !(#[trigger] slots[i]).describes(tag, evidence),
            None => forall|i: int|
                from <= i < slots.len() ==> !(#[trigger] slots[i]).describes(tag, evidence),
        },
    decreases slots.len() - from,
{
    if from < slots.len() && !slots[from].describes(tag, evidence) {
        lemma_described_is_sound(slots, tag, evidence, from + 1);
    }
}

/// Inspecting a framebuffer again gives the same object in the same generation,
/// and changes nothing.
pub proof fn law_inspection_is_stable(
    before: FirmwareDisplayTable,
    evidence: FirmwareFramebufferEvidence,
    secret: u64,
    known: FirmwareDisplayTable,
    first: FirmwareDisplaySnapshot,
    after: FirmwareDisplayTable,
    second: Result<FirmwareDisplaySnapshot, FirmwareDisplayError>,
)
    requires
        inspects(before, evidence, secret, known, Ok(first)),
        inspects(known, evidence, secret, after, second),
    ensures
        second == Ok::<FirmwareDisplaySnapshot, FirmwareDisplayError>(first),
        after == known,
{
    let tag = domain_tag_of(secret, evidence);
    lemma_described_is_sound(before.slots@, tag, evidence, 0);
    if place_described(before.slots@, tag, evidence, 0) is None {
        let place = before.slots@.len() as int;
        assert forall|i: int| 0 <= i < place implies !(#[trigger] known.slots@[i]).describes(
            tag,
            evidence,
        ) by {
            assert(known.slots@[i] == before.slots@[i]);
        }
        lemma_described_is_found(known.slots@, tag, evidence, place, 0);
    }
}

#[verifier::allow_in_spec]
pub fn expand_5(value: u8) -> u8
    returns
        (((value & 0x1f) << 3) | ((value & 0x1f) >> 2)),
{
    ((value & 0x1f) << 3) | ((value & 0x1f) >> 2)
}

#[verifier::allow_in_spec]
pub fn expand_6(value: u8) -> u8
    returns
        (((value & 0x3f) << 2) | ((value & 0x3f) >> 4)),
{
    ((value & 0x3f) << 2) | ((value & 0x3f) >> 4)
}

/// The color that a format keeps of a color.
#[verifier::allow_in_spec]
pub fn normalize_color(color: FirmwareColor, format: u32) -> FirmwareColor
    returns
        (if format == FRAMEBUFFER_FORMAT_RGB565 {
            FirmwareColor {
                red: expand_5(color.red >> 3),
                green: expand_6(color.green >> 2),
                blue: expand_5(color.blue >> 3),
            }
        } else {
            color
        }),
{
    if format == FRAMEBUFFER_FORMAT_RGB565 {
        FirmwareColor {
            red: expand_5(color.red >> 3),
            green: expand_6(color.green >> 2),
            blue: expand_5(color.blue >> 3),
        }
    } else {
        color
    }
}

/// A pixel as it stands in memory.
#[derive(Clone, Copy, Debug, PartialEq, Eq, Structural)]
pub enum PixelWord {
    Wide(u32),
    Narrow(u16),
}

/// The memory of a color in a format.
#[verifier::allow_in_spec]
pub fn encode_pixel(color: FirmwareColor, format: u32) -> Option<PixelWord>
    returns
        (if format == FRAMEBUFFER_FORMAT_XRGB8888 {
            Some(
                PixelWord::Wide(
                    ((color.red as u32) << 16) | ((color.green as u32) << 8) | (color.blue as u32),
                ),
            )
        } else if format == FRAMEBUFFER_FORMAT_XBGR8888 {
            Some(
                PixelWord::Wide(
                    ((color.blue as u32) << 16) | ((color.green as u32) << 8) | (color.red as u32),
                ),
            )
        } else if format == FRAMEBUFFER_FORMAT_RGB565 {
            Some(
                PixelWord::Narrow(
                    (((color.red >> 3) as u16) << 11) | (((color.green >> 2) as u16) << 5) | ((
                    color.blue >> 3) as u16),
                ),
            )
        } else {
            None::<PixelWord>
        }),
{
    if format == FRAMEBUFFER_FORMAT_XRGB8888 {
        Some(
            PixelWord::Wide(
                ((color.red as u32) << 16) | ((color.green as u32) << 8) | (color.blue as u32),
            ),
        )
    } else if format == FRAMEBUFFER_FORMAT_XBGR8888 {
        Some(
            PixelWord::Wide(
                ((color.blue as u32) << 16) | ((color.green as u32) << 8) | (color.red as u32),
            ),
        )
    } else if format == FRAMEBUFFER_FORMAT_RGB565 {
        Some(
            PixelWord::Narrow(
                (((color.red >> 3) as u16) << 11) | (((color.green >> 2) as u16) << 5) | ((
                color.blue >> 3) as u16),
            ),
        )
    } else {
        None
    }
}

/// The color that a wide pixel shows.
#[verifier::allow_in_spec]
pub fn decode_wide(value: u32, format: u32) -> FirmwareColor
    returns
        (if format == FRAMEBUFFER_FORMAT_XRGB8888 {
            FirmwareColor {
                red: (value >> 16) as u8,
                green: (value >> 8) as u8,
                blue: value as u8,
            }
        } else {
            FirmwareColor {
                red: value as u8,
                green: (value >> 8) as u8,
                blue: (value >> 16) as u8,
            }
        }),
{
    if format == FRAMEBUFFER_FORMAT_XRGB8888 {
        FirmwareColor { red: (value >> 16) as u8, green: (value >> 8) as u8, blue: value as u8 }
    } else {
        FirmwareColor { red: value as u8, green: (value >> 8) as u8, blue: (value >> 16) as u8 }
    }
}

/// The color that a narrow pixel shows.
#[verifier::allow_in_spec]
pub fn decode_narrow(value: u16) -> FirmwareColor
    returns
        (FirmwareColor {
            red: expand_5((value >> 11) as u8),
            green: expand_6((value >> 5) as u8),
            blue: expand_5(value as u8),
        }),
{
    FirmwareColor {
        red: expand_5((value >> 11) as u8),
        green: expand_6((value >> 5) as u8),
        blue: expand_5(value as u8),
    }
}

/// A color that was drawn reads back as what the format keeps of it.
pub proof fn law_a_drawn_color_reads_back(color: FirmwareColor, format: u32)
    ensures
        match encode_pixel(color, format) {
            Some(PixelWord::Wide(value)) => decode_wide(value, format) == normalize_color(
                color,
                format,
            ),
            Some(PixelWord::Narrow(value)) => decode_narrow(value) == normalize_color(
                color,
                format,
            ),
            None => bytes_per_pixel(format) is None,
        },
{
    let (r, g, b) = (color.red, color.green, color.blue);
    lemma_wide_bytes(r, g, b);
    lemma_wide_bytes(b, g, r);
    let narrow = (((r >> 3) as u16) << 11) | (((g >> 2) as u16) << 5) | ((b >> 3) as u16);
    let (high, middle, low) = ((narrow >> 11) as u8, (narrow >> 5) as u8, narrow as u8);
    assert(high & 0x1f == (r >> 3) & 0x1f && middle & 0x3f == (g >> 2) & 0x3f && low & 0x1f == (b
        >> 3) & 0x1f) by (bit_vector)
        requires
            narrow == (((r >> 3) as u16) << 11) | (((g >> 2) as u16) << 5) | ((b >> 3) as u16),
            high == (narrow >> 11) as u8,
            middle == (narrow >> 5) as u8,
            low == narrow as u8,
    ;
}

proof fn lemma_wide_bytes(high: u8, middle: u8, low: u8)
    ensures
        ({
            let value = ((high as u32) << 16) | ((middle as u32) << 8) | (low as u32);
            (value >> 16) as u8 == high && (value >> 8) as u8 == middle && value as u8 == low
        }),
{
    let value = ((high as u32) << 16) | ((middle as u32) << 8) | (low as u32);
    assert((value >> 16) as u8 == high && (value >> 8) as u8 == middle && value as u8 == low)
        by (bit_vector)
        requires
            value == ((high as u32) << 16) | ((middle as u32) << 8) | (low as u32),
    ;
}

/// What a format keeps of a color, it keeps in full.
pub proof fn law_normalizing_is_idempotent(color: FirmwareColor, format: u32)
    ensures
        normalize_color(normalize_color(color, format), format) == normalize_color(color, format),
{
    let (r, g, b) = (color.red, color.green, color.blue);
    lemma_expansion_keeps_five(r);
    lemma_expansion_keeps_five(b);
    let wide = expand_6(g >> 2);
    assert((wide >> 2) & 0x3f == (g >> 2) & 0x3f) by (bit_vector)
        requires
            wide == (((g >> 2) & 0x3f) << 2) | (((g >> 2) & 0x3f) >> 4),
    ;
}

proof fn lemma_expansion_keeps_five(value: u8)
    ensures
        expand_5(expand_5(value >> 3) >> 3) == expand_5(value >> 3),
{
    let wide = expand_5(value >> 3);
    assert((wide >> 3) & 0x1f == (value >> 3) & 0x1f) by (bit_vector)
        requires
            wide == (((value >> 3) & 0x1f) << 3) | (((value >> 3) & 0x1f) >> 2),
    ;
}

pub open spec fn capped(value: int) -> u8 {
    if value > 255 {
        255
    } else {
        value as u8
    }
}

/// How far along an axis a point is, from nothing to 255.
pub open spec fn along(point: u32, extent: u32) -> int {
    let scaled = if point * 255 > u32::MAX {
        u32::MAX as int
    } else {
        point * 255
    };
    scaled / (if extent == 0 {
        1
    } else {
        extent as int
    })
}

fn measure_along(point: u32, extent: u32) -> (distance: u32)
    ensures
        distance == along(point, extent),
{
    let scaled: u32 = match point.checked_mul(255) {
        Some(scaled) => scaled,
        None => u32::MAX,
    };
    if extent == 0 {
        scaled
    } else {
        scaled / extent
    }
}

/// The number that the pattern of a point is drawn from.
pub open spec fn orbit_of(x: u32, y: u32) -> u32 {
    let sum = x.wrapping_mul(17).wrapping_add(y.wrapping_mul(31));
    let turn = (y & 7) + 1;
    (sum << turn as u32) | (sum >> (32 - turn) as u32)
}

/// The color of the signature at a point.
pub open spec fn signature_at(x: u32, y: u32, width: u32, height: u32) -> FirmwareColor {
    FirmwareColor {
        red: capped(along(x, width) / 5 + (((x >> 3) ^ (y >> 2)) & 0x0f) * 3),
        green: capped(along(y, height) / 3 + ((orbit_of(x, y) >> 5) & 0x3f)),
        blue: capped(72 + along(x, width) / 2 + ((orbit_of(x, y) >> 11) & 0x1f)),
    }
}

fn cap(value: u32) -> (capped_value: u8)
    ensures
        capped_value == capped(value as int),
{
    if value > 255 {
        255
    } else {
        value as u8
    }
}

pub fn signature_color(x: u32, y: u32, width: u32, height: u32) -> (color: FirmwareColor)
    ensures
        color == signature_at(x, y, width, height),
{
    let horizontal: u32 = measure_along(x, width);
    let vertical: u32 = measure_along(y, height);
    let lattice: u32 = ((x >> 3) ^ (y >> 2)) & 0x0f;
    let sum: u32 = x.wrapping_mul(17).wrapping_add(y.wrapping_mul(31));
    assert(((x >> 3) ^ (y >> 2)) & 0x0f <= 15 && y & 7 <= 7) by (bit_vector);
    let turn: u32 = (y & 7) + 1;
    let orbit: u32 = (sum << turn) | (sum >> (32 - turn));
    assert((orbit >> 5) & 0x3f <= 63 && (orbit >> 11) & 0x1f <= 31) by (bit_vector);
    FirmwareColor {
        red: cap(horizontal / 5 + lattice * 3),
        green: cap(vertical / 3 + ((orbit >> 5) & 0x3f)),
        blue: cap(72 + horizontal / 2 + ((orbit >> 11) & 0x1f)),
    }
}

/// A window onto pixels.
pub trait PixelWindow {
    /// All that the window was asked and answered.
    open spec fn history(&self) -> Seq<PixelEvent> {
        arbitrary()
    }

    fn map(&mut self, physical: u64, length: usize) -> (reply: Result<(), MmioAccessError>)
        ensures
            final(self).history() == old(self).history().push(
                PixelEvent::Open { physical, length, refused: crate::trace::refusal(reply) },
            ),
    ;

    fn read_u32(&mut self, offset: usize) -> (reply: Result<u32, MmioAccessError>)
        ensures
            final(self).history() == old(self).history().push(
                PixelEvent::ReadWide { offset, reply },
            ),
    ;

    fn read_u16(&mut self, offset: usize) -> (reply: Result<u16, MmioAccessError>)
        ensures
            final(self).history() == old(self).history().push(
                PixelEvent::ReadNarrow { offset, reply },
            ),
    ;

    fn write_u32(&mut self, offset: usize, value: u32) -> (reply: Result<(), MmioAccessError>)
        ensures
            final(self).history() == old(self).history().push(
                PixelEvent::Write {
                    offset,
                    word: PixelWord::Wide(value),
                    refused: crate::trace::refusal(reply),
                },
            ),
    ;

    fn write_u16(&mut self, offset: usize, value: u16) -> (reply: Result<(), MmioAccessError>)
        ensures
            final(self).history() == old(self).history().push(
                PixelEvent::Write {
                    offset,
                    word: PixelWord::Narrow(value),
                    refused: crate::trace::refusal(reply),
                },
            ),
    ;

    fn close(&mut self) -> (status: i32)
        ensures
            final(self).history() == old(self).history().push(PixelEvent::Close(status)),
    ;
}

/// A window that is lent.
impl<W: PixelWindow> PixelWindow for &mut W {
    open spec fn history(&self) -> Seq<PixelEvent> {
        (**self).history()
    }

    fn map(&mut self, physical: u64, length: usize) -> (reply: Result<(), MmioAccessError>) {
        (**self).map(physical, length)
    }

    fn read_u32(&mut self, offset: usize) -> (reply: Result<u32, MmioAccessError>) {
        (**self).read_u32(offset)
    }

    fn read_u16(&mut self, offset: usize) -> (reply: Result<u16, MmioAccessError>) {
        (**self).read_u16(offset)
    }

    fn write_u32(&mut self, offset: usize, value: u32) -> (reply: Result<(), MmioAccessError>) {
        (**self).write_u32(offset, value)
    }

    fn write_u16(&mut self, offset: usize, value: u16) -> (reply: Result<(), MmioAccessError>) {
        (**self).write_u16(offset, value)
    }

    fn close(&mut self) -> (status: i32) {
        (**self).close()
    }
}

/// One exchange with a window.
pub enum PixelEvent {
    Open { physical: u64, length: usize, refused: Option<MmioAccessError> },
    ReadWide { offset: usize, reply: Result<u32, MmioAccessError> },
    ReadNarrow { offset: usize, reply: Result<u16, MmioAccessError> },
    Write { offset: usize, word: PixelWord, refused: Option<MmioAccessError> },
    Close(i32),
}

/// A window in use. Its transcript is the history of the window.
pub struct PixelTrace<W> {
    pub window: W,
}

impl<W: PixelWindow> PixelTrace<W> {
    pub open spec fn log(&self) -> Seq<PixelEvent> {
        self.window.history()
    }

    pub fn new(window: W) -> (trace: Self)
        ensures
            trace.window == window,
    {
        PixelTrace { window }
    }

    fn map(&mut self, physical: u64, length: usize) -> (refused: Option<MmioAccessError>)
        ensures
            final(self).log() == old(self).log().push(
                PixelEvent::Open { physical, length, refused },
            ),
    {
        let refused = match self.window.map(physical, length) {
            Ok(()) => None,
            Err(error) => Some(error),
        };
        refused
    }

    fn read_wide(&mut self, offset: usize) -> (reply: Result<u32, MmioAccessError>)
        ensures
            final(self).log() == old(self).log().push(PixelEvent::ReadWide { offset, reply }),
    {
        let reply = self.window.read_u32(offset);
        reply
    }

    fn read_narrow(&mut self, offset: usize) -> (reply: Result<u16, MmioAccessError>)
        ensures
            final(self).log() == old(self).log().push(PixelEvent::ReadNarrow { offset, reply }),
    {
        let reply = self.window.read_u16(offset);
        reply
    }

    fn write(&mut self, offset: usize, word: PixelWord) -> (refused: Option<MmioAccessError>)
        ensures
            final(self).log() == old(self).log().push(
                PixelEvent::Write { offset, word, refused },
            ),
    {
        let reply = match word {
            PixelWord::Wide(value) => self.window.write_u32(offset, value),
            PixelWord::Narrow(value) => self.window.write_u16(offset, value),
        };
        let refused = match reply {
            Ok(()) => None,
            Err(error) => Some(error),
        };
        refused
    }

    fn close(&mut self) -> (status: i32)
        ensures
            final(self).log() == old(self).log().push(PixelEvent::Close(status)),
    {
        let status: i32 = self.window.close();
        status
    }
}

/// A stretch of a framebuffer that is mapped.
#[derive(Debug, PartialEq, Eq)]
pub struct FirmwareDisplayMapping {
    pub object: u64,
    pub generation: u32,
    pub offset: u64,
    pub length: usize,
}

/// The physical start of a stretch of a framebuffer.
pub open spec fn span_of(
    found: Option<FirmwareDisplaySnapshot>,
    offset: u64,
    length: usize,
) -> Result<
    u64,
    FirmwareDisplayError,
> {
    match found {
        None => Err(FirmwareDisplayError::NotFound),
        Some(snapshot) => if snapshot.retain_count == 0 || length == 0 {
            Err(FirmwareDisplayError::StaleObject)
        } else if offset + length > snapshot.evidence.byte_length {
            Err(FirmwareDisplayError::AddressOverflow)
        } else if snapshot.evidence.physical_address + offset > u64::MAX {
            Err(FirmwareDisplayError::AddressOverflow)
        } else {
            Ok((snapshot.evidence.physical_address + offset) as u64)
        },
    }
}

/// The mapping of a stretch, by the transcript.
pub open spec fn span_run(
    found: Option<FirmwareDisplaySnapshot>,
    object: u64,
    offset: u64,
    length: usize,
    log: Seq<PixelEvent>,
    at: int,
) -> Option<(Result<FirmwareDisplayMapping, FirmwareDisplayError>, int)> {
    match span_of(found, offset, length) {
        Err(error) => Some((Err(error), at)),
        Ok(physical) => if !(0 <= at < log.len()) {
            None
        } else {
            match log[at] {
                PixelEvent::Open { physical: base, length: bytes, refused } => if base != physical
                    || bytes != length {
                    None
                } else {
                    match refused {
                        Some(error) => Some((Err(FirmwareDisplayError::Mapping(error)), at + 1)),
                        None => Some(
                            (
                                Ok(
                                    FirmwareDisplayMapping {
                                        object,
                                        generation: found.unwrap().generation,
                                        offset,
                                        length,
                                    },
                                ),
                                at + 1,
                            ),
                        ),
                    }
                },
                _ => None,
            }
        },
    }
}

/// Where a pixel lies in a mapping, and in which format.
pub open spec fn pixel_at(
    found: Option<FirmwareDisplaySnapshot>,
    mapping: FirmwareDisplayMapping,
    x: u32,
    y: u32,
) -> Result<(u32, usize), FirmwareDisplayError> {
    match found {
        None => Err(FirmwareDisplayError::StaleObject),
        Some(snapshot) => if snapshot.generation != mapping.generation || snapshot.retain_count
            == 0 {
            Err(FirmwareDisplayError::StaleObject)
        } else if x >= snapshot.evidence.width || y >= snapshot.evidence.height {
            Err(FirmwareDisplayError::PixelOutOfBounds)
        } else {
            match bytes_per_pixel(snapshot.evidence.format) {
                None => Err(FirmwareDisplayError::UnsupportedFormat),
                Some(bytes) => {
                    let absolute = y * snapshot.evidence.pitch + x * bytes;
                    if absolute > u64::MAX {
                        Err(FirmwareDisplayError::AddressOverflow)
                    } else if absolute < mapping.offset {
                        Err(FirmwareDisplayError::PixelOutOfBounds)
                    } else if absolute - mapping.offset + bytes > u64::MAX {
                        Err(FirmwareDisplayError::AddressOverflow)
                    } else if absolute - mapping.offset + bytes > mapping.length {
                        Err(FirmwareDisplayError::PixelOutOfBounds)
                    } else {
                        Ok((snapshot.evidence.format, (absolute - mapping.offset) as usize))
                    }
                },
            }
        },
    }
}

/// The reading of a pixel, by the transcript.
pub open spec fn read_run(
    found: Option<FirmwareDisplaySnapshot>,
    mapping: FirmwareDisplayMapping,
    x: u32,
    y: u32,
    log: Seq<PixelEvent>,
    at: int,
) -> Option<(Result<FirmwareColor, FirmwareDisplayError>, int)> {
    match pixel_at(found, mapping, x, y) {
        Err(error) => Some((Err(error), at)),
        Ok((format, local)) => if !(0 <= at < log.len()) {
            None
        } else {
            match log[at] {
                PixelEvent::ReadWide { offset, reply } => if offset != local || format
                    == FRAMEBUFFER_FORMAT_RGB565 {
                    None
                } else {
                    match reply {
                        Ok(value) => Some((Ok(decode_wide(value, format)), at + 1)),
                        Err(error) => Some((Err(FirmwareDisplayError::Mapping(error)), at + 1)),
                    }
                },
                PixelEvent::ReadNarrow { offset, reply } => if offset != local || format
                    != FRAMEBUFFER_FORMAT_RGB565 {
                    None
                } else {
                    match reply {
                        Ok(value) => Some((Ok(decode_narrow(value)), at + 1)),
                        Err(error) => Some((Err(FirmwareDisplayError::Mapping(error)), at + 1)),
                    }
                },
                _ => None,
            }
        },
    }
}

/// The writing of a pixel, by the transcript: what it failed with.
pub open spec fn write_run(
    found: Option<FirmwareDisplaySnapshot>,
    mapping: FirmwareDisplayMapping,
    x: u32,
    y: u32,
    color: FirmwareColor,
    log: Seq<PixelEvent>,
    at: int,
) -> Option<(Option<FirmwareDisplayError>, int)> {
    match pixel_at(found, mapping, x, y) {
        Err(error) => Some((Some(error), at)),
        Ok((format, local)) => if !(0 <= at < log.len()) {
            None
        } else {
            match log[at] {
                PixelEvent::Write { offset, word, refused } => if offset != local || encode_pixel(
                    color,
                    format,
                ) != Some(word) {
                    None
                } else {
                    match refused {
                        Some(error) => Some((Some(FirmwareDisplayError::Mapping(error)), at + 1)),
                        None => Some((None, at + 1)),
                    }
                },
                _ => None,
            }
        },
    }
}

impl FirmwareDisplayMapping {
    /// Maps a stretch of a retained framebuffer.
    pub fn map_span<W: PixelWindow>(
        table: &FirmwareDisplayTable,
        object: u64,
        offset: u64,
        length: usize,
        trace: &mut PixelTrace<W>,
    ) -> (result: Result<Self, FirmwareDisplayError>)
        ensures
            crate::trace::continues(final(trace).log(), old(trace).log()),
            forall|log: Seq<PixelEvent>| #[trigger]
                crate::trace::continues(log, final(trace).log()) ==> span_run(
                    snapshot_of(table.slots@, object),
                    object,
                    offset,
                    length,
                    log,
                    old(trace).log().len() as int,
                ) == Some((result, final(trace).log().len() as int)),
            result matches Ok(mapping) ==> mapping.object == object,
    {
        let snapshot = match table.snapshot(object) {
            None => {
                return Err(FirmwareDisplayError::NotFound);
            },
            Some(snapshot) => snapshot,
        };
        if snapshot.retain_count == 0 || length == 0 {
            return Err(FirmwareDisplayError::StaleObject);
        }
        let end: u64 = match offset.checked_add(length as u64) {
            None => {
                return Err(FirmwareDisplayError::AddressOverflow);
            },
            Some(end) => end,
        };
        if end > snapshot.evidence.byte_length {
            return Err(FirmwareDisplayError::AddressOverflow);
        }
        let physical: u64 = match snapshot.evidence.physical_address.checked_add(offset) {
            None => {
                return Err(FirmwareDisplayError::AddressOverflow);
            },
            Some(physical) => physical,
        };
        let ghost start = trace.log().len() as int;
        let refused = trace.map(physical, length);
        assert(trace.log()[start] == (PixelEvent::Open { physical, length, refused }));
        match refused {
            Some(error) => Err(FirmwareDisplayError::Mapping(error)),
            None => Ok(
                FirmwareDisplayMapping { object, generation: snapshot.generation, offset, length },
            ),
        }
    }

    #[verifier::allow_in_spec]
    pub fn object(&self) -> u64
        returns
            self.object,
    {
        self.object
    }

    #[verifier::allow_in_spec]
    pub fn generation(&self) -> u32
        returns
            self.generation,
    {
        self.generation
    }

    #[verifier::allow_in_spec]
    pub fn offset(&self) -> u64
        returns
            self.offset,
    {
        self.offset
    }

    #[verifier::allow_in_spec]
    pub fn length(&self) -> usize
        returns
            self.length,
    {
        self.length
    }

    fn pixel_location(&self, table: &FirmwareDisplayTable, x: u32, y: u32) -> (result: Result<
        (u32, usize),
        FirmwareDisplayError,
    >)
        ensures
            result == pixel_at(snapshot_of(table.slots@, self.object), *self, x, y),
            result matches Ok(location) ==> bytes_per_pixel(location.0) is Some,
    {
        let snapshot = match table.snapshot(self.object) {
            None => {
                return Err(FirmwareDisplayError::StaleObject);
            },
            Some(snapshot) => snapshot,
        };
        if snapshot.generation != self.generation || snapshot.retain_count == 0 {
            return Err(FirmwareDisplayError::StaleObject);
        }
        if x >= snapshot.evidence.width || y >= snapshot.evidence.height {
            return Err(FirmwareDisplayError::PixelOutOfBounds);
        }
        let bytes: u32 = match bytes_per_pixel(snapshot.evidence.format) {
            None => {
                return Err(FirmwareDisplayError::UnsupportedFormat);
            },
            Some(bytes) => bytes,
        };
        let row: u64 = match (y as u64).checked_mul(snapshot.evidence.pitch as u64) {
            None => {
                return Err(FirmwareDisplayError::AddressOverflow);
            },
            Some(row) => row,
        };
        let column: u64 = x as u64 * bytes as u64;
        let absolute: u64 = match row.checked_add(column) {
            None => {
                return Err(FirmwareDisplayError::AddressOverflow);
            },
            Some(absolute) => absolute,
        };
        if absolute < self.offset {
            return Err(FirmwareDisplayError::PixelOutOfBounds);
        }
        let local: u64 = absolute - self.offset;
        let end: u64 = match local.checked_add(bytes as u64) {
            None => {
                return Err(FirmwareDisplayError::AddressOverflow);
            },
            Some(end) => end,
        };
        if end > self.length as u64 {
            return Err(FirmwareDisplayError::PixelOutOfBounds);
        }
        Ok((snapshot.evidence.format, local as usize))
    }

    pub fn read_pixel<W: PixelWindow>(
        &self,
        table: &FirmwareDisplayTable,
        x: u32,
        y: u32,
        trace: &mut PixelTrace<W>,
    ) -> (result: Result<FirmwareColor, FirmwareDisplayError>)
        ensures
            crate::trace::continues(final(trace).log(), old(trace).log()),
            forall|log: Seq<PixelEvent>| #[trigger]
                crate::trace::continues(log, final(trace).log()) ==> read_run(
                    snapshot_of(table.slots@, self.object),
                    *self,
                    x,
                    y,
                    log,
                    old(trace).log().len() as int,
                ) == Some((result, final(trace).log().len() as int)),
    {
        let (format, local): (u32, usize) = match self.pixel_location(table, x, y) {
            Err(error) => {
                return Err(error);
            },
            Ok(location) => location,
        };
        let ghost start = trace.log().len() as int;
        if format == FRAMEBUFFER_FORMAT_RGB565 {
            let reply = trace.read_narrow(local);
            assert(trace.log()[start] == (PixelEvent::ReadNarrow { offset: local, reply }));
            match reply {
                Ok(value) => Ok(decode_narrow(value)),
                Err(error) => Err(FirmwareDisplayError::Mapping(error)),
            }
        } else {
            let reply = trace.read_wide(local);
            assert(trace.log()[start] == (PixelEvent::ReadWide { offset: local, reply }));
            match reply {
                Ok(value) => Ok(decode_wide(value, format)),
                Err(error) => Err(FirmwareDisplayError::Mapping(error)),
            }
        }
    }

    fn draw<W: PixelWindow>(
        &self,
        table: &FirmwareDisplayTable,
        x: u32,
        y: u32,
        color: FirmwareColor,
        trace: &mut PixelTrace<W>,
    ) -> (failed: Option<FirmwareDisplayError>)
        ensures
            crate::trace::continues(final(trace).log(), old(trace).log()),
            forall|log: Seq<PixelEvent>| #[trigger]
                crate::trace::continues(log, final(trace).log()) ==> write_run(
                    snapshot_of(table.slots@, self.object),
                    *self,
                    x,
                    y,
                    color,
                    log,
                    old(trace).log().len() as int,
                ) == Some((failed, final(trace).log().len() as int)),
    {
        let (format, local): (u32, usize) = match self.pixel_location(table, x, y) {
            Err(error) => {
                return Some(error);
            },
            Ok(location) => location,
        };
        let word = match encode_pixel(color, format) {
            None => {
                return Some(FirmwareDisplayError::UnsupportedFormat);
            },
            Some(word) => word,
        };
        let ghost start = trace.log().len() as int;
        let refused = trace.write(local, word);
        assert(trace.log()[start] == (PixelEvent::Write { offset: local, word, refused }));
        match refused {
            Some(error) => Some(FirmwareDisplayError::Mapping(error)),
            None => None,
        }
    }

    pub fn write_pixel<W: PixelWindow>(
        &self,
        table: &FirmwareDisplayTable,
        x: u32,
        y: u32,
        color: FirmwareColor,
        trace: &mut PixelTrace<W>,
    ) -> (result: Result<(), FirmwareDisplayError>)
        ensures
            crate::trace::continues(final(trace).log(), old(trace).log()),
            forall|log: Seq<PixelEvent>| #[trigger]
                crate::trace::continues(log, final(trace).log()) ==> write_run(
                    snapshot_of(table.slots@, self.object),
                    *self,
                    x,
                    y,
                    color,
                    log,
                    old(trace).log().len() as int,
                ) == Some(
                    (
                        match result {
                            Ok(_) => None,
                            Err(error) => Some(error),
                        },
                        final(trace).log().len() as int,
                    ),
                ),
    {
        match self.draw(table, x, y, color, trace) {
            Some(error) => Err(error),
            None => Ok(()),
        }
    }

    pub fn close<W: PixelWindow>(self, trace: &mut PixelTrace<W>) -> (status: i32)
        ensures
            final(trace).log() == old(trace).log().push(PixelEvent::Close(status)),
    {
        trace.close()
    }
}

pub const MAXIMUM_BOOT_SIGNATURE_BYTES: u64 = 0x0010_0000;

pub const MAXIMUM_BOOT_SIGNATURE_HEIGHT: u32 = 64;

pub const VERIFICATION_STRIDE: u32 = 97;

/// What a drawing has done so far.
#[derive(Clone, Copy, Debug, PartialEq, Eq, Structural)]
pub struct SignatureRenderReport {
    pub pixels_written: u64,
    pub pixels_verified: u64,
    pub image_root: u64,
}

/// The word by which a pixel enters the image root.
#[verifier::allow_in_spec]
pub fn pixel_word(color: FirmwareColor, x: u32, y: u32) -> u64
    returns
        ((color.red as u64) | ((color.green as u64) << 8) | ((color.blue as u64) << 16) | ((
        x as u64) << 24) | ((y as u64) << 48)),
{
    (color.red as u64) | ((color.green as u64) << 8) | ((color.blue as u64) << 16) | ((x as u64)
        << 24) | ((y as u64) << 48)
}

/// Whether a pixel is read back once it is drawn.
#[verifier::allow_in_spec]
pub fn is_verified(x: u32, y: u32, width: u32) -> bool
    returns
        (x.wrapping_add(y.wrapping_mul(width)) % VERIFICATION_STRIDE == 0),
{
    x.wrapping_add(y.wrapping_mul(width)) % VERIFICATION_STRIDE == 0
}

pub open spec fn one_more(count: u64) -> u64 {
    if count == u64::MAX {
        count
    } else {
        (count + 1) as u64
    }
}

/// The drawing of one pixel, by the transcript.
pub open spec fn pixel_run(
    found: Option<FirmwareDisplaySnapshot>,
    mapping: FirmwareDisplayMapping,
    x: u32,
    y: u32,
    width: u32,
    height: u32,
    format: u32,
    report: SignatureRenderReport,
    log: Seq<PixelEvent>,
    at: int,
) -> Option<(Result<SignatureRenderReport, FirmwareDisplayError>, int)> {
    let color = signature_at(x, y, width, height);
    match write_run(found, mapping, x, y, color, log, at) {
        None => None,
        Some((Some(error), after)) => Some((Err(error), after)),
        Some((None, after)) => {
            let drawn = SignatureRenderReport {
                pixels_written: one_more(report.pixels_written),
                pixels_verified: report.pixels_verified,
                image_root: crate::seal::mix_of(report.image_root, pixel_word(color, x, y)),
            };
            if !is_verified(x, y, width) {
                Some((Ok(drawn), after))
            } else {
                match read_run(found, mapping, x, y, log, after) {
                    None => None,
                    Some((Err(error), end)) => Some((Err(error), end)),
                    Some((Ok(observed), end)) => if observed != normalize_color(color, format) {
                        Some((Err(FirmwareDisplayError::VerificationFault), end))
                    } else {
                        Some(
                            (
                                Ok(
                                    SignatureRenderReport {
                                        pixels_verified: one_more(drawn.pixels_verified),
                                        ..drawn
                                    },
                                ),
                                end,
                            ),
                        )
                    },
                }
            }
        },
    }
}

/// The drawing of the signature from a pixel on, by the transcript.
pub open spec fn drawing_run(
    found: Option<FirmwareDisplaySnapshot>,
    mapping: FirmwareDisplayMapping,
    x: int,
    y: int,
    width: u32,
    height: u32,
    format: u32,
    report: SignatureRenderReport,
    log: Seq<PixelEvent>,
    at: int,
) -> Option<(Result<SignatureRenderReport, FirmwareDisplayError>, int)>
    decreases height - y, width - x,
{
    if y >= height {
        Some((Ok(report), at))
    } else if x >= width {
        drawing_run(found, mapping, 0, y + 1, width, height, format, report, log, at)
    } else {
        match pixel_run(
            found,
            mapping,
            x as u32,
            y as u32,
            width,
            height,
            format,
            report,
            log,
            at,
        ) {
            None => None,
            Some((Err(error), after)) => Some((Err(error), after)),
            Some((Ok(grown), after)) => drawing_run(
                found,
                mapping,
                x + 1,
                y,
                width,
                height,
                format,
                grown,
                log,
                after,
            ),
        }
    }
}

fn render_pixel<W: PixelWindow>(
    mapping: &FirmwareDisplayMapping,
    table: &FirmwareDisplayTable,
    x: u32,
    y: u32,
    width: u32,
    height: u32,
    format: u32,
    report: SignatureRenderReport,
    trace: &mut PixelTrace<W>,
) -> (result: Result<SignatureRenderReport, FirmwareDisplayError>)
    ensures
        crate::trace::continues(final(trace).log(), old(trace).log()),
        forall|log: Seq<PixelEvent>| #[trigger]
            crate::trace::continues(log, final(trace).log()) ==> pixel_run(
                snapshot_of(table.slots@, mapping.object),
                *mapping,
                x,
                y,
                width,
                height,
                format,
                report,
                log,
                old(trace).log().len() as int,
            ) == Some((result, final(trace).log().len() as int)),
{
    let color = signature_color(x, y, width, height);
    match mapping.draw(table, x, y, color, trace) {
        Some(error) => {
            return Err(error);
        },
        None => {},
    }
    let mut drawn = SignatureRenderReport {
        pixels_written: report.pixels_written.saturating_add(1),
        pixels_verified: report.pixels_verified,
        image_root: mix(report.image_root, pixel_word(color, x, y)),
    };
    if is_verified(x, y, width) {
        let ghost written = trace.log();
        let read = mapping.read_pixel(table, x, y, trace);
        assert forall|log: Seq<PixelEvent>| #[trigger]
            crate::trace::continues(log, trace.log()) implies crate::trace::continues(
            log,
            written,
        ) by {}
        let observed = match read {
            Err(error) => {
                return Err(error);
            },
            Ok(observed) => observed,
        };
        if observed != normalize_color(color, format) {
            return Err(FirmwareDisplayError::VerificationFault);
        }
        drawn.pixels_verified = drawn.pixels_verified.saturating_add(1);
    }
    Ok(drawn)
}

fn render_signature_pixels<W: PixelWindow>(
    mapping: &FirmwareDisplayMapping,
    table: &FirmwareDisplayTable,
    width: u32,
    height: u32,
    format: u32,
    trace: &mut PixelTrace<W>,
) -> (result: Result<SignatureRenderReport, FirmwareDisplayError>)
    ensures
        crate::trace::continues(final(trace).log(), old(trace).log()),
        forall|log: Seq<PixelEvent>| #[trigger]
            crate::trace::continues(log, final(trace).log()) ==> drawing_run(
                snapshot_of(table.slots@, mapping.object),
                *mapping,
                0,
                0,
                width,
                height,
                format,
                blank_report(*mapping),
                log,
                old(trace).log().len() as int,
            ) == Some((result, final(trace).log().len() as int)),
{
    let ghost found = snapshot_of(table.slots@, mapping.object);
    let mut report = SignatureRenderReport {
        pixels_written: 0,
        pixels_verified: 0,
        image_root: mix(mapping.object, mapping.generation as u64),
    };
    let mut x: u32 = 0;
    let mut y: u32 = 0;
    while y < height
        invariant
            y <= height,
            x <= width,
            found == snapshot_of(table.slots@, mapping.object),
            crate::trace::continues(trace.log(), old(trace).log()),
            forall|log: Seq<PixelEvent>| #[trigger]
                crate::trace::continues(log, trace.log()) ==> drawing_run(
                    found,
                    *mapping,
                    0,
                    0,
                    width,
                    height,
                    format,
                    blank_report(*mapping),
                    log,
                    old(trace).log().len() as int,
                ) == drawing_run(
                    found,
                    *mapping,
                    x as int,
                    y as int,
                    width,
                    height,
                    format,
                    report,
                    log,
                    trace.log().len() as int,
                ),
        decreases height - y, width - x,
    {
        if x >= width {
            x = 0;
            y = y + 1;
        } else {
            let ghost head = trace.log();
            let rendered = render_pixel(
                mapping,
                table,
                x,
                y,
                width,
                height,
                format,
                report,
                trace,
            );
            assert forall|log: Seq<PixelEvent>| #[trigger]
                crate::trace::continues(log, trace.log()) implies crate::trace::continues(
                log,
                head,
            ) by {}
            report = match rendered {
                Err(error) => {
                    return Err(error);
                },
                Ok(grown) => grown,
            };
            x = x + 1;
        }
    }
    Ok(report)
}

/// A drawing that has not begun.
pub open spec fn blank_report(mapping: FirmwareDisplayMapping) -> SignatureRenderReport {
    SignatureRenderReport {
        pixels_written: 0,
        pixels_verified: 0,
        image_root: crate::seal::mix_of(mapping.object, mapping.generation as u64),
    }
}

/// How many rows of a framebuffer the signature takes.
pub open spec fn stripe_of(evidence: FirmwareFramebufferEvidence) -> u32 {
    let rows: int = if evidence.pitch == 0 {
        0
    } else {
        MAXIMUM_BOOT_SIGNATURE_BYTES as int / evidence.pitch as int
    };
    let within = if rows < evidence.height {
        rows
    } else {
        evidence.height as int
    };
    if within < MAXIMUM_BOOT_SIGNATURE_HEIGHT {
        within as u32
    } else {
        MAXIMUM_BOOT_SIGNATURE_HEIGHT
    }
}

fn stripe_height(evidence: FirmwareFramebufferEvidence) -> (height: u32)
    ensures
        height == stripe_of(evidence),
{
    let rows: u64 = if evidence.pitch == 0 {
        0
    } else {
        MAXIMUM_BOOT_SIGNATURE_BYTES / evidence.pitch as u64
    };
    let within: u64 = if rows < evidence.height as u64 {
        rows
    } else {
        evidence.height as u64
    };
    if within < MAXIMUM_BOOT_SIGNATURE_HEIGHT as u64 {
        within as u32
    } else {
        MAXIMUM_BOOT_SIGNATURE_HEIGHT
    }
}

/// The signature never maps more than one mebibyte.
pub proof fn law_the_signature_maps_at_most_one_mebibyte(evidence: FirmwareFramebufferEvidence)
    ensures
        evidence.pitch * stripe_of(evidence) <= MAXIMUM_BOOT_SIGNATURE_BYTES,
        stripe_of(evidence) <= evidence.height,
        stripe_of(evidence) <= MAXIMUM_BOOT_SIGNATURE_HEIGHT,
{
    let pitch = evidence.pitch as int;
    let stripe = stripe_of(evidence) as int;
    if pitch == 0 {
        assert(pitch * stripe == 0) by (nonlinear_arith)
            requires
                pitch == 0,
        ;
    } else {
        let rows = MAXIMUM_BOOT_SIGNATURE_BYTES as int / pitch;
        assert(pitch * stripe <= 0x10_0000) by (nonlinear_arith)
            requires
                0 < pitch,
                0 <= stripe <= rows,
                rows == 0x10_0000int / pitch,
        ;
    }
}

/// What a drawing amounts to once its mapping closed.
pub open spec fn closed_drawing(
    object: u64,
    generation: u32,
    stripe_height: u32,
    drawn: Result<SignatureRenderReport, FirmwareDisplayError>,
    status: i32,
) -> Result<FirmwareBootSignatureReport, FirmwareDisplayError> {
    match drawn {
        Err(error) => Err(error),
        Ok(report) => if status != STATUS_OK {
            Err(FirmwareDisplayError::Unmap(status))
        } else {
            Ok(
                FirmwareBootSignatureReport {
                    object,
                    generation,
                    stripe_height,
                    pixels_written: report.pixels_written,
                    pixels_verified: report.pixels_verified,
                    image_root: report.image_root,
                },
            )
        },
    }
}

/// The boot signature, by the transcript.
pub open spec fn signature_run(
    found: Option<FirmwareDisplaySnapshot>,
    object: u64,
    log: Seq<PixelEvent>,
    at: int,
) -> Option<(Result<FirmwareBootSignatureReport, FirmwareDisplayError>, int)> {
    match found {
        None => Some((Err(FirmwareDisplayError::NotFound), at)),
        Some(snapshot) => {
            let stripe = stripe_of(snapshot.evidence);
            let length = snapshot.evidence.pitch * stripe;
            if snapshot.retain_count == 0 {
                Some((Err(FirmwareDisplayError::StaleObject), at))
            } else if stripe == 0 {
                Some((Err(FirmwareDisplayError::InvalidEvidence), at))
            } else {
                match span_run(found, object, 0, length as usize, log, at) {
                    None => None,
                    Some((Err(error), after)) => Some((Err(error), after)),
                    Some((Ok(mapping), mapped)) => match drawing_run(
                        found,
                        mapping,
                        0,
                        0,
                        snapshot.evidence.width,
                        stripe,
                        snapshot.evidence.format,
                        blank_report(mapping),
                        log,
                        mapped,
                    ) {
                        None => None,
                        Some((drawn, after)) => if 0 <= after < log.len() {
                            match log[after] {
                                PixelEvent::Close(status) => Some(
                                    (
                                        closed_drawing(
                                            object,
                                            snapshot.generation,
                                            stripe,
                                            drawn,
                                            status,
                                        ),
                                        after + 1,
                                    ),
                                ),
                                _ => None,
                            }
                        } else {
                            None
                        },
                    },
                }
            }
        },
    }
}

/// Draws the boot signature into a retained framebuffer and reads part of it
/// back. The mapping is closed before it returns.
pub fn render_boot_signature<W: PixelWindow>(
    table: &FirmwareDisplayTable,
    object: u64,
    trace: &mut PixelTrace<W>,
) -> (result: Result<FirmwareBootSignatureReport, FirmwareDisplayError>)
    ensures
        crate::trace::continues(final(trace).log(), old(trace).log()),
        forall|log: Seq<PixelEvent>| #[trigger]
            crate::trace::continues(log, final(trace).log()) ==> signature_run(
                snapshot_of(table.slots@, object),
                object,
                log,
                old(trace).log().len() as int,
            ) == Some((result, final(trace).log().len() as int)),
{
    let snapshot = match table.snapshot(object) {
        None => {
            return Err(FirmwareDisplayError::NotFound);
        },
        Some(snapshot) => snapshot,
    };
    if snapshot.retain_count == 0 {
        return Err(FirmwareDisplayError::StaleObject);
    }
    let stripe: u32 = stripe_height(snapshot.evidence);
    if stripe == 0 {
        return Err(FirmwareDisplayError::InvalidEvidence);
    }
    proof {
        law_the_signature_maps_at_most_one_mebibyte(snapshot.evidence);
    }
    let length: usize = snapshot.evidence.pitch as usize * stripe as usize;
    let mapping = match FirmwareDisplayMapping::map_span(table, object, 0, length, trace) {
        Err(error) => {
            return Err(error);
        },
        Ok(mapping) => mapping,
    };
    let ghost mapped = trace.log();
    let drawn = render_signature_pixels(
        &mapping,
        table,
        snapshot.evidence.width,
        stripe,
        snapshot.evidence.format,
        trace,
    );
    let ghost finished = trace.log();
    let status: i32 = mapping.close(trace);
    assert forall|log: Seq<PixelEvent>| #[trigger]
        crate::trace::continues(log, trace.log()) implies crate::trace::continues(log, mapped)
        && crate::trace::continues(log, finished) && log[finished.len() as int]
        == trace.log()[finished.len() as int] by {}
    match drawn {
        Err(error) => Err(error),
        Ok(report) => {
            if status != STATUS_OK {
                return Err(FirmwareDisplayError::Unmap(status));
            }
            Ok(
                FirmwareBootSignatureReport {
                    object,
                    generation: snapshot.generation,
                    stripe_height: stripe,
                    pixels_written: report.pixels_written,
                    pixels_verified: report.pixels_verified,
                    image_root: report.image_root,
                },
            )
        },
    }
}

/// The pixels of the stripe from one on.
pub open spec fn pixels_left(x: int, y: int, width: int, height: int) -> int {
    if y >= height {
        0
    } else {
        width - x + width * (height - 1 - y)
    }
}

/// A drawing that succeeds has drawn every pixel of its stripe exactly once.
pub proof fn law_a_finished_drawing_covers_the_stripe(
    found: Option<FirmwareDisplaySnapshot>,
    mapping: FirmwareDisplayMapping,
    x: int,
    y: int,
    width: u32,
    height: u32,
    format: u32,
    report: SignatureRenderReport,
    log: Seq<PixelEvent>,
    at: int,
)
    requires
        0 <= x <= width,
        0 <= y <= height,
        report.pixels_written + pixels_left(x, y, width as int, height as int) <= u64::MAX,
    ensures
        drawing_run(found, mapping, x, y, width, height, format, report, log, at) matches Some(
            (Ok(done), _),
        ) ==> done.pixels_written == report.pixels_written + pixels_left(
            x,
            y,
            width as int,
            height as int,
        ),
    decreases height - y, width - x,
{
    if y < height {
        if x >= width {
            assert(width * (height - 1 - y) == width + width * (height - 1 - (y + 1)))
                by (nonlinear_arith);
            if y + 1 >= height {
                assert(width * (height - 1 - y) == 0) by (nonlinear_arith)
                    requires
                        y + 1 == height,
                ;
            }
            law_a_finished_drawing_covers_the_stripe(
                found,
                mapping,
                0,
                y + 1,
                width,
                height,
                format,
                report,
                log,
                at,
            );
        } else {
            assert(width * (height - 1 - y) >= 0) by (nonlinear_arith)
                requires
                    y < height,
            ;
            match pixel_run(
                found,
                mapping,
                x as u32,
                y as u32,
                width,
                height,
                format,
                report,
                log,
                at,
            ) {
                Some((Ok(grown), after)) => {
                    law_a_finished_drawing_covers_the_stripe(
                        found,
                        mapping,
                        x + 1,
                        y,
                        width,
                        height,
                        format,
                        grown,
                        log,
                        after,
                    );
                },
                _ => {},
            }
        }
    }
}

} // verus!
