//! Laws of the framebuffers that firmware left.

use vstd::prelude::*;

use crate::drivernet::fingerprint::FirmwareFramebufferEvidence;
use crate::firmware_display::FirmwareColor;
use crate::firmware_display::FirmwareDisplayError;
use crate::firmware_display::FirmwareDisplayMapping;
use crate::firmware_display::FirmwareDisplaySlot;
use crate::firmware_display::FirmwareDisplaySnapshot;
use crate::firmware_display::FirmwareDisplayTable;
use crate::firmware_display::PixelEvent;
use crate::firmware_display::PixelWord;

verus! {

/// The two 32-bit formats take four bytes a pixel and the 16-bit format two.
pub proof fn law_pixels_take_four_bytes_or_two(format: u32)
    ensures
        crate::firmware_display::bytes_per_pixel(format) == (if format == 1 || format == 2 {
            Some(4u32)
        } else if format == 3 {
            Some(2u32)
        } else {
            None
        }),
{
}

/// Every pixel of a sound framebuffer lies inside its bytes, pixels of one row
/// do not run into the next row, and each is aligned to its size.
pub proof fn law_pixels_of_sound_evidence_lie_inside(
    evidence: FirmwareFramebufferEvidence,
    x: int,
    y: int,
)
    requires
        crate::firmware_display::evidence_fault(evidence) is None,
        0 <= x < evidence.width,
        0 <= y < evidence.height,
    ensures
        ({
            let bytes: int = if evidence.format == 3 {
                2
            } else {
                4
            };
            &&& 1 <= evidence.format <= 3
            &&& (x + 1) * bytes <= evidence.pitch
            &&& y * evidence.pitch + (x + 1) * bytes <= evidence.byte_length
            &&& evidence.pitch as int % bytes == 0
            &&& evidence.physical_address as int % bytes == 0
            &&& evidence.physical_address + evidence.byte_length <= u64::MAX
        }),
{
    let bytes: int = if evidence.format == 3 {
        2
    } else {
        4
    };
    let (pitch, height) = (evidence.pitch as int, evidence.height as int);
    assert(y * pitch + pitch <= pitch * height) by (nonlinear_arith)
        requires
            0 <= y < height,
            0 <= pitch,
    ;
}

/// Evidence is sound exactly when it is usable, of a known format, with a pitch
/// that holds a row and is a multiple of the pixel, an aligned address, and
/// bytes enough for all rows that do not wrap round the address space.
pub proof fn law_when_evidence_is_sound(evidence: FirmwareFramebufferEvidence)
    ensures
        crate::firmware_display::evidence_fault(evidence) is None <==> {
            let bytes: int = if evidence.format == 3 {
                2
            } else {
                4
            };
            &&& evidence.usable()
            &&& 1 <= evidence.format <= 3
            &&& evidence.width * bytes <= evidence.pitch
            &&& evidence.pitch as int % bytes == 0
            &&& evidence.physical_address as int % bytes == 0
            &&& evidence.pitch * evidence.height <= evidence.byte_length
            &&& evidence.physical_address + evidence.byte_length <= u64::MAX
        },
{
}

/// The pixel below lies one pitch further, the pixel to the right one pixel
/// size further, and the first pixel of the framebuffer at its first byte.
pub proof fn law_pixels_step_by_pitch_and_size(
    found: FirmwareDisplaySnapshot,
    mapping: FirmwareDisplayMapping,
    x: u32,
    y: u32,
    format: u32,
    local: usize,
)
    requires
        crate::firmware_display::pixel_at(Some(found), mapping, x, y) == Ok::<
            _,
            FirmwareDisplayError,
        >((format, local)),
    ensures
        format == found.evidence.format,
        found.generation == mapping.generation,
        found.retain_count > 0,
        x < found.evidence.width,
        y < found.evidence.height,
        local + (if format == 3 {
            2int
        } else {
            4int
        }) <= mapping.length,
        x == 0 && y == 0 ==> local + mapping.offset == 0,
        y < u32::MAX ==> (crate::firmware_display::pixel_at(
            Some(found),
            mapping,
            x,
            (y + 1) as u32,
        ) matches Ok((_, below)) ==> below - local == found.evidence.pitch),
        x < u32::MAX ==> (crate::firmware_display::pixel_at(
            Some(found),
            mapping,
            (x + 1) as u32,
            y,
        ) matches Ok((_, right)) ==> right - local == (if format == 3 {
            2int
        } else {
            4int
        })),
{
    let pitch = found.evidence.pitch as int;
    assert((y + 1) * pitch == y * pitch + pitch) by (nonlinear_arith);
    assert(0 <= y * pitch) by (nonlinear_arith)
        requires
            0 <= pitch,
            0 <= y,
    ;
    if x == 0 && y == 0 {
        assert(y * pitch == 0) by (nonlinear_arith)
            requires
                y == 0,
        ;
    }
}

/// A mapping that starts further in shows the same pixel that much earlier.
pub proof fn law_a_later_mapping_shows_pixels_earlier(
    found: FirmwareDisplaySnapshot,
    mapping: FirmwareDisplayMapping,
    other: FirmwareDisplayMapping,
    x: u32,
    y: u32,
)
    ensures
        crate::firmware_display::pixel_at(Some(found), mapping, x, y) matches Ok((_, local)) ==> (
        crate::firmware_display::pixel_at(Some(found), other, x, y) matches Ok((_, moved))
            ==> local + mapping.offset == moved + other.offset),
{
}

/// In a mapping of a whole sound framebuffer every pixel of its width and
/// height has a place.
pub proof fn law_a_whole_mapping_shows_every_pixel(
    found: FirmwareDisplaySnapshot,
    mapping: FirmwareDisplayMapping,
    x: u32,
    y: u32,
)
    requires
        crate::firmware_display::evidence_fault(found.evidence) is None,
        found.retain_count > 0,
        mapping.generation == found.generation,
        mapping.offset == 0,
        mapping.length >= found.evidence.byte_length,
    ensures
        crate::firmware_display::pixel_at(Some(found), mapping, x, y) is Ok <==> x
            < found.evidence.width && y < found.evidence.height,
{
    if x < found.evidence.width && y < found.evidence.height {
        law_pixels_of_sound_evidence_lie_inside(found.evidence, x as int, y as int);
        let pitch = found.evidence.pitch as int;
        assert(0 <= y * pitch) by (nonlinear_arith)
            requires
                0 <= pitch,
                0 <= y,
        ;
    }
}

/// A span of a held framebuffer is found at its address plus the offset, and
/// ends inside the framebuffer.
pub proof fn law_a_span_is_base_plus_offset(
    found: FirmwareDisplaySnapshot,
    offset: u64,
    length: usize,
)
    ensures
        crate::firmware_display::span_of(Some(found), offset, length) matches Ok(physical)
            ==> physical - found.evidence.physical_address == offset,
        found.evidence.physical_address + found.evidence.byte_length <= u64::MAX ==> (
        crate::firmware_display::span_of(Some(found), offset, length) is Ok <==> found.retain_count
            > 0 && length > 0 && offset + length <= found.evidence.byte_length),
        found.retain_count == 0 ==> crate::firmware_display::span_of(Some(found), offset, length)
            == Err::<u64, _>(FirmwareDisplayError::StaleObject),
{
}

/// A mapping that is made covers the span that was opened, of the object and
/// generation that was found.
pub proof fn law_a_mapping_covers_its_span(
    found: FirmwareDisplaySnapshot,
    object: u64,
    offset: u64,
    length: usize,
    log: Seq<PixelEvent>,
    at: int,
    mapping: FirmwareDisplayMapping,
    end: int,
)
    requires
        crate::firmware_display::span_run(Some(found), object, offset, length, log, at) == Some(
            (Ok::<_, FirmwareDisplayError>(mapping), end),
        ),
    ensures
        end == at + 1,
        0 <= at < log.len(),
        log[at] matches PixelEvent::Open { physical, length: bytes, refused } && physical
            == found.evidence.physical_address + offset && bytes == length && refused is None,
        mapping.object == object,
        mapping.generation == found.generation,
        mapping.offset == offset,
        mapping.length == length,
{
}

proof fn lemma_color_words(red: u8, green: u8, blue: u8)
    by (bit_vector)
    ensures
        ((red as u32) << 16) | ((green as u32) << 8) | (blue as u32) == red * 0x1_0000 + green
            * 0x100 + blue,
        (((red >> 3) as u16) << 11) | (((green >> 2) as u16) << 5) | ((blue >> 3) as u16) == (
        red as u16) / 8 * 2048 + (green as u16) / 4 * 32 + (blue as u16) / 8,
{
}

/// Five and six bits are widened to eight by repeating their upper bits, so
/// that zero stays zero and all ones become 255.
pub proof fn law_channels_widen_evenly(value: u8)
    ensures
        crate::firmware_display::expand_5(value) == value % 32 * 8 + value % 32 / 4,
        crate::firmware_display::expand_6(value) == value % 64 * 4 + value % 64 / 16,
        crate::firmware_display::expand_5(value) / 8 == value % 32,
        crate::firmware_display::expand_6(value) / 4 == value % 64,
        value % 32 == 0 <==> crate::firmware_display::expand_5(value) == 0,
        value % 32 == 31 <==> crate::firmware_display::expand_5(value) == 255,
        value % 64 == 0 <==> crate::firmware_display::expand_6(value) == 0,
        value % 64 == 63 <==> crate::firmware_display::expand_6(value) == 255,
{
    crate::bits::lemma_byte(value);
}

/// Format 1 holds red, green and blue from high byte to low, format 2 blue,
/// green and red, and format 3 five, six and five bits of red, green and blue.
pub proof fn law_pixels_hold_their_channels(color: FirmwareColor, format: u32)
    ensures
        format == 1 ==> crate::firmware_display::encode_pixel(color, format) == Some(
            PixelWord::Wide((color.red * 0x1_0000 + color.green * 0x100 + color.blue) as u32),
        ),
        format == 2 ==> crate::firmware_display::encode_pixel(color, format) == Some(
            PixelWord::Wide((color.blue * 0x1_0000 + color.green * 0x100 + color.red) as u32),
        ),
        format == 3 ==> crate::firmware_display::encode_pixel(color, format) == Some(
            PixelWord::Narrow(
                (color.red / 8 * 2048 + color.green / 4 * 32 + color.blue / 8) as u16,
            ),
        ),
        crate::firmware_display::encode_pixel(color, format) is Some <==> 1 <= format <= 3,
{
    lemma_color_words(color.red, color.green, color.blue);
    lemma_color_words(color.blue, color.green, color.red);
}

/// Reading takes the channels apart again.
pub proof fn law_channels_are_read_from_their_places(value: u32, word: u16)
    ensures
        ({
            let color = crate::firmware_display::decode_wide(value, 1);
            value % 0x100_0000 == color.red * 0x1_0000 + color.green * 0x100 + color.blue
        }),
        ({
            let color = crate::firmware_display::decode_wide(value, 2);
            value % 0x100_0000 == color.blue * 0x1_0000 + color.green * 0x100 + color.red
        }),
        ({
            let color = crate::firmware_display::decode_narrow(word);
            &&& color.red / 8 == word / 2048
            &&& color.green / 4 == word / 32 % 64
            &&& color.blue / 8 == word % 32
        }),
{
    assert((value >> 16) as u8 * 0x1_0000 + (value >> 8) as u8 * 0x100 + value as u8 == value
        % 0x100_0000) by {
        crate::bits::lemma_word32(value);
    }
    assert((word >> 11) as u8 % 32 == word / 2048 && (word >> 5) as u8 % 64 == word / 32 % 64
        && word as u8 % 32 == word % 32) by {
        assert((word >> 11) as u8 == word / 2048 && (word >> 5) as u8 == word / 32 % 0x100
            && word as u8 == word % 0x100) by {
            crate::bits::lemma_word16(word);
        }
        let row = word / 32;
        assert(row % 0x100 % 64 == row % 64);
        assert(word % 0x100 % 32 == word % 32);
    }
    law_channels_widen_evenly((word >> 11) as u8);
    law_channels_widen_evenly((word >> 5) as u8);
    law_channels_widen_evenly(word as u8);
}

/// What a 16-bit framebuffer can show of a color keeps the upper bits of each
/// channel; the wide formats show it as it is.
pub proof fn law_normal_colors_keep_the_upper_bits(color: FirmwareColor, format: u32)
    ensures
        ({
            let shown = crate::firmware_display::normalize_color(color, format);
            &&& format == 3 ==> shown.red / 8 == color.red / 8 && shown.green / 4 == color.green / 4
                && shown.blue / 8 == color.blue / 8 && shown.red % 8 == color.red / 32
                && shown.green % 4 == color.green / 64 && shown.blue % 8 == color.blue / 32
            &&& format != 3 ==> shown == color
        }),
{
    assert(color.red >> 3 == color.red / 8) by {
        crate::bits::lemma_byte(color.red);
    }
    assert(color.green >> 2 == color.green / 4) by {
        crate::bits::lemma_byte(color.green);
    }
    assert(color.blue >> 3 == color.blue / 8) by {
        crate::bits::lemma_byte(color.blue);
    }
    law_channels_widen_evenly(color.red >> 3);
    law_channels_widen_evenly(color.green >> 2);
    law_channels_widen_evenly(color.blue >> 3);
}

/// A pixel is written once, at its place, as its color encodes.
pub proof fn law_a_pixel_is_written_at_its_place(
    found: FirmwareDisplaySnapshot,
    mapping: FirmwareDisplayMapping,
    x: u32,
    y: u32,
    color: FirmwareColor,
    log: Seq<PixelEvent>,
    at: int,
    end: int,
)
    requires
        crate::firmware_display::write_run(Some(found), mapping, x, y, color, log, at) == Some(
            (None::<FirmwareDisplayError>, end),
        ),
    ensures
        end == at + 1,
        0 <= at < log.len(),
        log[at] is Write,
        log[at]->Write_refused is None,
        log[at]->Write_offset + mapping.offset == y * found.evidence.pitch + x * (
        if found.evidence.format == 3 {
            2int
        } else {
            4int
        }),
        crate::firmware_display::encode_pixel(color, found.evidence.format) == Some(
            log[at]->Write_word,
        ),
{
}

proof fn lemma_turned(sum: u32)
    by (bit_vector)
    ensures
        (sum << 1u32) | (sum >> 31u32) == sum % 0x8000_0000 * 2 + sum / 0x8000_0000,
        (sum << 2u32) | (sum >> 30u32) == sum % 0x4000_0000 * 4 + sum / 0x4000_0000,
        (sum << 3u32) | (sum >> 29u32) == sum % 0x2000_0000 * 8 + sum / 0x2000_0000,
        (sum << 4u32) | (sum >> 28u32) == sum % 0x1000_0000 * 16 + sum / 0x1000_0000,
        (sum << 5u32) | (sum >> 27u32) == sum % 0x800_0000 * 32 + sum / 0x800_0000,
        (sum << 6u32) | (sum >> 26u32) == sum % 0x400_0000 * 64 + sum / 0x400_0000,
        (sum << 7u32) | (sum >> 25u32) == sum % 0x200_0000 * 128 + sum / 0x200_0000,
        (sum << 8u32) | (sum >> 24u32) == sum % 0x100_0000 * 256 + sum / 0x100_0000,
        (sum >> 5) & 0x3f == sum / 32 % 64,
        (sum >> 11) & 0x1f == sum / 2048 % 32,
        sum & 7 == sum % 8,
{
}

/// A pixel's orbit is 17 times its column plus 31 times its row, turned left by
/// one bit more than the row modulo eight.
pub proof fn law_an_orbit_turns_with_its_row(x: u32, y: u32)
    requires
        x < 0x400_0000,
        y < 0x400_0000,
    ensures
        ({
            let sum = 17 * x + 31 * y;
            let orbit = crate::firmware_display::orbit_of(x, y);
            &&& y % 8 == 0 ==> orbit == sum % 0x8000_0000 * 2 + sum / 0x8000_0000
            &&& y % 8 == 1 ==> orbit == sum % 0x4000_0000 * 4 + sum / 0x4000_0000
            &&& y % 8 == 2 ==> orbit == sum % 0x2000_0000 * 8 + sum / 0x2000_0000
            &&& y % 8 == 3 ==> orbit == sum % 0x1000_0000 * 16 + sum / 0x1000_0000
            &&& y % 8 == 4 ==> orbit == sum % 0x800_0000 * 32 + sum / 0x800_0000
            &&& y % 8 == 5 ==> orbit == sum % 0x400_0000 * 64 + sum / 0x400_0000
            &&& y % 8 == 6 ==> orbit == sum % 0x200_0000 * 128 + sum / 0x200_0000
            &&& y % 8 == 7 ==> orbit == sum % 0x100_0000 * 256 + sum / 0x100_0000
        }),
{
    let sum = x.wrapping_mul(17).wrapping_add(y.wrapping_mul(31));
    assert(sum == 17 * x + 31 * y);
    lemma_turned(sum);
    lemma_turned(y);
}

/// The signature grows redder and bluer to the right and greener downwards: its
/// channels are at least a fifth of the way along the row, a third of the way
/// down and 72 plus half of the way along, and at most a ripple more.
pub proof fn law_the_signature_follows_its_position(x: u32, y: u32, width: u32, height: u32)
    requires
        x < width <= 0x100_0000,
        y < height <= 0x100_0000,
    ensures
        ({
            let color = crate::firmware_display::signature_at(x, y, width, height);
            let (along, down) = (x * 255 / width as int, y * 255 / height as int);
            let orbit = crate::firmware_display::orbit_of(x, y);
            &&& along / 5 <= color.red <= along / 5 + 45
            &&& color.green == down / 3 + orbit / 32 % 64
            &&& color.blue == 72 + along / 2 + orbit / 2048 % 32
            &&& x / 8 == y / 4 ==> color.red == along / 5
        }),
{
    let ripple = ((x >> 3) ^ (y >> 2)) & 0x0f;
    let orbit = crate::firmware_display::orbit_of(x, y);
    assert((orbit >> 5) & 0x3f == orbit / 32 % 64 && (orbit >> 11) & 0x1f == orbit / 2048 % 32) by {
        lemma_turned(orbit);
    }
    assert(ripple <= 15 && (x / 8 == y / 4 ==> ripple == 0)) by {
        lemma_ripple(x, y);
    }
    assert(crate::firmware_display::along(x, width) == x * 255 / width as int);
    assert(crate::firmware_display::along(y, height) == y * 255 / height as int);
    assert(0 <= x * 255 / width as int <= 254) by (nonlinear_arith)
        requires
            0 <= x < width,
    ;
    assert(0 <= y * 255 / height as int <= 254) by (nonlinear_arith)
        requires
            0 <= y < height,
    ;
}

proof fn lemma_ripple(x: u32, y: u32)
    by (bit_vector)
    ensures
        x >> 3 == x / 8,
        y >> 2 == y / 4,
        ((x >> 3) ^ (y >> 2)) & 0x0f <= 15,
        x / 8 == y / 4 ==> ((x >> 3) ^ (y >> 2)) & 0x0f == 0,
{
}

/// Every 97th pixel of the drawing, counted row by row, is read back.
pub proof fn law_every_ninety_seventh_pixel_is_read_back(x: u32, y: u32, width: u32)
    requires
        x + y * width <= u32::MAX,
    ensures
        crate::firmware_display::is_verified(x, y, width) <==> (x + y * width) % 97 == 0,
{
}

/// Generations start at one, rise by one and never become zero.
pub proof fn law_generations_are_never_zero(generation: u32)
    ensures
        crate::firmware_display::generation_now(generation) >= 1,
        generation >= 1 ==> crate::firmware_display::generation_now(generation) == generation,
        crate::firmware_display::generation_after(generation) >= 1,
        generation < u32::MAX ==> crate::firmware_display::generation_after(generation) - generation
            == 1,
{
}

/// Retaining counts the object that was named up by one, releasing counts it
/// down by one, and neither touches another object or its own evidence.
pub proof fn law_holding_counts_by_one(
    before: FirmwareDisplayTable,
    object: u64,
    secret: u64,
    after: FirmwareDisplayTable,
    snapshot: FirmwareDisplaySnapshot,
    place: int,
)
    requires
        0 <= place < before.slots@.len(),
    ensures
        crate::firmware_display::retains(before, object, secret, after, Ok(snapshot)) ==> {
            &&& after.slots@.len() == before.slots@.len()
            &&& snapshot.object == object
            &&& after.slots@[place] != before.slots@[place] ==> before.slots@[place].object
                == object && after.slots@[place].retain_count - before.slots@[place].retain_count
                == 1 && snapshot == after.slots@[place].snapshot()
            &&& after.slots@[place].evidence == before.slots@[place].evidence
            &&& after.slots@[place].object == before.slots@[place].object
            &&& after.slots@[place].generation == before.slots@[place].generation
        },
        crate::firmware_display::releases(before, object, secret, after, Ok(snapshot)) ==> {
            &&& after.slots@.len() == before.slots@.len()
            &&& snapshot.object == object
            &&& after.slots@[place] != before.slots@[place] ==> before.slots@[place].object
                == object && before.slots@[place].retain_count - after.slots@[place].retain_count
                == 1 && snapshot == after.slots@[place].snapshot()
            &&& after.slots@[place].evidence == before.slots@[place].evidence
            &&& after.slots@[place].object == before.slots@[place].object
            &&& after.slots@[place].generation == before.slots@[place].generation
        },
{
    lemma_objects_are_found(before.slots@, object, 0);
}

proof fn lemma_objects_are_found(slots: Seq<FirmwareDisplaySlot>, object: u64, from: int)
    requires
        0 <= from <= slots.len(),
    ensures
        crate::firmware_display::place_of_object(slots, object, from) matches Some(place) ==> from
            <= place < slots.len() && slots[place].object == object && forall|i: int|
            from <= i < place ==> (#[trigger] slots[i]).object != object,
        crate::firmware_display::place_of_object(slots, object, from) is None ==> forall|i: int|
            from <= i < slots.len() ==> (#[trigger] slots[i]).object != object,
    decreases slots.len() - from,
{
    if from < slots.len() && slots[from].object != object {
        lemma_objects_are_found(slots, object, from + 1);
    }
}

/// A snapshot of an object is the state of the first slot that holds it.
pub proof fn law_a_snapshot_is_of_its_object(slots: Seq<FirmwareDisplaySlot>, object: u64)
    ensures
        crate::firmware_display::snapshot_of(slots, object) is Some <==> exists|i: int|
            0 <= i < slots.len() && (#[trigger] slots[i]).object == object,
        crate::firmware_display::snapshot_of(slots, object) matches Some(snapshot)
            ==> snapshot.object == object && exists|i: int|
            0 <= i < slots.len() && (#[trigger] slots[i]).retain_count == snapshot.retain_count
                && slots[i].generation == snapshot.generation && slots[i].evidence
                == snapshot.evidence && slots[i].state_root == snapshot.state_root
                && slots[i].object == object,
{
    lemma_objects_are_found(slots, object, 0);
    if let Some(place) = crate::firmware_display::place_of_object(slots, object, 0) {
        assert(slots[place].object == object);
        assert(slots[place].retain_count == slots[place].snapshot().retain_count);
    }
}

/// A framebuffer that is new to the table is added behind the others, held by
/// nobody, under the next generation; one that is refused or known changes
/// nothing.
pub proof fn law_inspection_adds_at_most_one(
    before: FirmwareDisplayTable,
    evidence: FirmwareFramebufferEvidence,
    secret: u64,
    after: FirmwareDisplayTable,
    result: Result<FirmwareDisplaySnapshot, FirmwareDisplayError>,
)
    requires
        crate::firmware_display::inspects(before, evidence, secret, after, result),
    ensures
        after.slots@.len() == before.slots@.len() || (after.slots@.len() == before.slots@.len() + 1
            && after.slots@.drop_last() == before.slots@ && before.slots@.len() < 4
            && after.slots@.last().retain_count == 0 && after.slots@.last().evidence == evidence
            && after.slots@.last().generation >= 1 && result == Ok::<_, FirmwareDisplayError>(
            after.slots@.last().snapshot(),
        )),
        secret == 0 ==> result is Err,
        result is Err ==> after == before,
        result matches Ok(snapshot) ==> snapshot.evidence.physical_address
            == evidence.physical_address && snapshot.evidence.byte_length == evidence.byte_length
            && snapshot.evidence.width == evidence.width && snapshot.evidence.height
            == evidence.height && snapshot.evidence.pitch == evidence.pitch
            && snapshot.evidence.format == evidence.format,
{
    let tag = crate::firmware_display::domain_tag_of(secret, evidence);
    lemma_descriptions_are_found(before.slots@, tag, evidence, 0);
    if after.slots@.len() == before.slots@.len() + 1 {
        assert(after.slots@.drop_last() =~= before.slots@);
    }
}

proof fn lemma_descriptions_are_found(
    slots: Seq<FirmwareDisplaySlot>,
    tag: u64,
    evidence: FirmwareFramebufferEvidence,
    from: int,
)
    requires
        0 <= from <= slots.len(),
    ensures
        crate::firmware_display::place_described(slots, tag, evidence, from) matches Some(place)
            ==> from <= place < slots.len() && slots[place].describes(tag, evidence),
    decreases slots.len() - from,
{
    if from < slots.len() && !slots[from].describes(tag, evidence) {
        lemma_descriptions_are_found(slots, tag, evidence, from + 1);
    }
}

/// The signature is drawn over as many rows as fit in a mebibyte, but at most
/// 64 and at most the whole height.
pub proof fn law_the_stripe_is_as_high_as_it_may_be(evidence: FirmwareFramebufferEvidence)
    requires
        evidence.pitch > 0,
    ensures
        ({
            let stripe = crate::firmware_display::stripe_of(evidence);
            &&& stripe <= 64
            &&& stripe <= evidence.height
            &&& evidence.pitch * stripe <= 0x10_0000
            &&& stripe == 64 || stripe == evidence.height || evidence.pitch * (stripe + 1)
                > 0x10_0000
        }),
{
    let pitch = evidence.pitch as int;
    let rows = 0x10_0000int / pitch;
    crate::firmware_display::law_the_signature_maps_at_most_one_mebibyte(evidence);
    assert(pitch * (rows + 1) > 0x10_0000) by (nonlinear_arith)
        requires
            pitch > 0,
            rows == 0x10_0000int / pitch,
    ;
}

} // verus!
