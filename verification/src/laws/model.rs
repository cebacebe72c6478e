//! Laws of how strategies are scored and ranked.

use vstd::prelude::*;

use crate::drivernet::fingerprint::BarEvidence;
use crate::drivernet::fingerprint::GpuFingerprint;
use crate::drivernet::fingerprint::BAR_64BIT;
use crate::drivernet::fingerprint::BAR_PREFETCHABLE;
use crate::drivernet::fingerprint::BAR_PRESENT;
use crate::drivernet::fingerprint::CAP_MSI;
use crate::drivernet::fingerprint::CAP_MSIX;
use crate::drivernet::fingerprint::CAP_PCIE;
use crate::drivernet::fingerprint::TOPOLOGY_BOOT_DISPLAY;
use crate::drivernet::fingerprint::TOPOLOGY_CONFIG_INCOMPLETE;
use crate::drivernet::fingerprint::TOPOLOGY_FIRMWARE_FRAMEBUFFER;
use crate::drivernet::fingerprint::TOPOLOGY_HOTPLUG_PORT;
use crate::drivernet::fingerprint::TOPOLOGY_INTERNAL_PANEL;
use crate::drivernet::fingerprint::TOPOLOGY_INVENTORY_OVERFLOW;
use crate::drivernet::fingerprint::TOPOLOGY_IOMMU_ISOLATED;
use crate::drivernet::fingerprint::TOPOLOGY_IOMMU_PRESENT;
use crate::drivernet::fingerprint::TOPOLOGY_REMOVABLE;
use crate::drivernet::fingerprint::TOPOLOGY_VIRTUAL_MACHINE;
use crate::drivernet::model::DriverStrategy;
use crate::drivernet::model::ModelExpectation;
use crate::drivernet::model::OraclePolicy;
use crate::drivernet::model::RankedCandidate;
use crate::drivernet::model_weights::ModelWeights;

verus! {

proof fn lemma_scores_below(
    model: ModelWeights,
    other: ModelWeights,
    strategy: DriverStrategy,
    values: Seq<i16>,
    changed: Seq<i16>,
    known_mask: u32,
    feature: int,
    upto: int,
)
    requires
        0 <= feature < 24,
        0 <= upto <= 24,
        forall|i: int|
            0 <= i < 24 && i != feature ==> (#[trigger] other.weights[strategy.index() as int][i])
                == model.weights[strategy.index() as int][i],
        forall|i: int| 0 <= i < 24 && i != feature ==> (#[trigger] changed[i]) == values[i],
    ensures
        crate::drivernet::model::score_below(other, strategy, changed, known_mask, upto)
            - crate::drivernet::model::score_below(model, strategy, values, known_mask, upto)
            == other.bias[strategy.index() as int] - model.bias[strategy.index() as int] + (if feature
            < upto && known_mask & (1u32 << (feature as u32)) != 0 {
            changed[feature] * other.weights[strategy.index() as int][feature] - values[feature]
                * model.weights[strategy.index() as int][feature]
        } else {
            0
        }),
    decreases upto,
{
    if upto > 0 {
        lemma_scores_below(
            model,
            other,
            strategy,
            values,
            changed,
            known_mask,
            feature,
            upto - 1,
        );
        if upto - 1 != feature {
            assert(other.weights[strategy.index() as int][upto - 1]
                == model.weights[strategy.index() as int][upto - 1]);
            assert(changed[upto - 1] == values[upto - 1]);
        }
    }
}

/// A heavier weight of one known feature raises the score of its strategy by
/// the feature's value times the difference; the weight of an unknown feature
/// does not count, nor do the weights of other strategies.
pub proof fn law_a_weight_counts_by_its_value(
    model: ModelWeights,
    other: ModelWeights,
    strategy: DriverStrategy,
    values: Seq<i16>,
    known_mask: u32,
    feature: int,
)
    requires
        0 <= feature < 24,
        other.bias[strategy.index() as int] == model.bias[strategy.index() as int],
        forall|i: int|
            0 <= i < 24 && i != feature ==> (#[trigger] other.weights[strategy.index() as int][i])
                == model.weights[strategy.index() as int][i],
    ensures
        crate::drivernet::model::score_of(other, strategy, values, known_mask)
            - crate::drivernet::model::score_of(
                model,
                strategy,
                values,
                known_mask,
            ) == (if known_mask
            & (1u32 << (feature as u32)) != 0 {
            values[feature] * (other.weights[strategy.index() as int][feature]
                - model.weights[strategy.index() as int][feature])
        } else {
            0
        }),
{
    lemma_scores_below(model, other, strategy, values, values, known_mask, feature, 24);
    let (v, w, u) = (
        values[feature] as int,
        other.weights[strategy.index() as int][feature] as int,
        model.weights[strategy.index() as int][feature] as int,
    );
    assert(v * (w - u) == v * w - v * u) by (nonlinear_arith);
}

/// A larger value of one known feature raises the score by the feature's
/// weight times the difference: a positive value under a positive weight speaks
/// for a strategy, and an unknown feature says nothing.
pub proof fn law_a_value_counts_by_its_weight(
    model: ModelWeights,
    strategy: DriverStrategy,
    values: Seq<i16>,
    changed: Seq<i16>,
    known_mask: u32,
    feature: int,
)
    requires
        0 <= feature < 24,
        forall|i: int| 0 <= i < 24 && i != feature ==> (#[trigger] changed[i]) == values[i],
    ensures
        crate::drivernet::model::score_of(model, strategy, changed, known_mask)
            - crate::drivernet::model::score_of(
                model,
                strategy,
                values,
                known_mask,
            ) == (if known_mask
            & (1u32 << (feature as u32)) != 0 {
            (changed[feature] - values[feature])
                * model.weights[strategy.index() as int][feature]
        } else {
            0
        }),
{
    lemma_scores_below(model, model, strategy, values, changed, known_mask, feature, 24);
    let (v, c, w) = (
        values[feature] as int,
        changed[feature] as int,
        model.weights[strategy.index() as int][feature] as int,
    );
    assert((c - v) * w == c * w - v * w) by (nonlinear_arith);
}

/// The bias of a strategy is its score when every feature is zero or unknown,
/// and a larger bias raises the score by the difference.
pub proof fn law_the_bias_is_the_score_of_nothing(
    model: ModelWeights,
    other: ModelWeights,
    strategy: DriverStrategy,
    values: Seq<i16>,
    known_mask: u32,
)
    requires
        forall|i: int|
            0 <= i < 24 ==> (#[trigger] other.weights[strategy.index() as int][i])
                == model.weights[strategy.index() as int][i],
    ensures
        (forall|i: int| 0 <= i < 24 ==> (#[trigger] values[i]) == 0)
            ==> crate::drivernet::model::score_of(model, strategy, values, known_mask)
            == model.bias[strategy.index() as int],
        crate::drivernet::model::score_of(other, strategy, values, known_mask)
            - crate::drivernet::model::score_of(model, strategy, values, known_mask)
            == other.bias[strategy.index() as int] - model.bias[strategy.index() as int],
{
    lemma_scores_below(model, other, strategy, values, values, known_mask, 0, 24);
    if forall|i: int| 0 <= i < 24 ==> (#[trigger] values[i]) == 0 {
        lemma_zero_scores(model, strategy, values, known_mask, 24);
    }
    let (v, w, u) = (
        values[0] as int,
        other.weights[strategy.index() as int][0] as int,
        model.weights[strategy.index() as int][0] as int,
    );
    assert(w == u);
}

proof fn lemma_zero_scores(
    model: ModelWeights,
    strategy: DriverStrategy,
    values: Seq<i16>,
    known_mask: u32,
    upto: int,
)
    requires
        0 <= upto <= 24,
        forall|i: int| 0 <= i < 24 ==> (#[trigger] values[i]) == 0,
    ensures
        crate::drivernet::model::score_below(model, strategy, values, known_mask, upto)
            == model.bias[strategy.index() as int],
    decreases upto,
{
    if upto > 0 {
        lemma_zero_scores(model, strategy, values, known_mask, upto - 1);
        let weight = model.weights[strategy.index() as int][upto - 1] as int;
        assert(values[upto - 1] == 0);
        assert(values[upto - 1] * weight == 0) by (nonlinear_arith)
            requires
                values[upto - 1] == 0,
        ;
    }
}

/// Strategies are numbered from zero in the order of preference, and the number
/// names the strategy again. The first five are native.
pub proof fn law_strategies_are_numbered(strategy: DriverStrategy)
    ensures
        DriverStrategy::from_index(strategy.index()) == strategy,
        strategy.index() <= 6,
        DriverStrategy::HermesNvidia.index() == 0,
        DriverStrategy::HermesNvidia.index() < DriverStrategy::AmdDisplay.index()
            < DriverStrategy::IntelDisplay.index() < DriverStrategy::VirtioGpu.index()
            < DriverStrategy::VirtualSvga.index() < DriverStrategy::FirmwareFramebuffer.index()
            < DriverStrategy::Quarantine.index(),
        strategy.native() <==> strategy.index() < 5,
{
}

/// A 16-bit number falls into one of 256 equal buckets.
pub proof fn law_buckets_are_even(value: u16)
    ensures
        crate::drivernet::model::bucket_u16(value) == value as int / 257,
{
    let v = value as int;
    assert(v * 255 / 65535 == v / 257);
}

/// Known vendors have buckets of their own, well above those of others.
pub proof fn law_vendors_have_their_buckets(vendor: u16)
    ensures
        crate::drivernet::model::vendor_bucket(vendor) == 256 <==> vendor == 0x10de,
        crate::drivernet::model::vendor_bucket(vendor) == 224 <==> vendor == 0x1002,
        crate::drivernet::model::vendor_bucket(vendor) == 192 <==> vendor == 0x8086,
        crate::drivernet::model::vendor_bucket(vendor) == 160 <==> vendor == 0x1af4,
        crate::drivernet::model::vendor_bucket(vendor) == 144 <==> vendor == 0x15ad,
        crate::drivernet::model::vendor_bucket(vendor) == 128 <==> vendor == 0x1b36,
        crate::drivernet::model::vendor_bucket(vendor) == 112 <==> vendor == 0x1234,
        crate::drivernet::model::vendor_bucket(vendor) == 0 <==> vendor == 0xffff,
        crate::drivernet::model::vendor_bucket(vendor) < 112 && vendor != 0xffff
            ==> crate::drivernet::model::vendor_bucket(vendor) == 64,
{
}

/// Each step of declared memory, at one, 16, 64 and 256 mebibytes and one, four
/// and 16 gibibytes, raises the tier by 32.
pub proof fn law_tiers_rise_with_memory(bytes: u64)
    ensures
        crate::drivernet::model::resource_tier(bytes) % 32 == 0,
        0 <= crate::drivernet::model::resource_tier(bytes) <= 224,
        crate::drivernet::model::resource_tier(bytes) >= 32 <==> bytes >= 1024 * 1024,
        crate::drivernet::model::resource_tier(bytes) >= 64 <==> bytes >= 16 * 1024 * 1024,
        crate::drivernet::model::resource_tier(bytes) >= 96 <==> bytes >= 64 * 1024 * 1024,
        crate::drivernet::model::resource_tier(bytes) >= 128 <==> bytes >= 256 * 1024 * 1024,
        crate::drivernet::model::resource_tier(bytes) >= 160 <==> bytes >= 1024 * 1024 * 1024,
        crate::drivernet::model::resource_tier(bytes) >= 192 <==> bytes >= 4 * 1024 * 1024 * 1024,
        crate::drivernet::model::resource_tier(bytes) >= 224 <==> bytes >= 16 * 1024 * 1024 * 1024,
{
}

/// A feature that is one flag is 256 where the flag is set and zero where it is
/// not; a feature that is a small number is that number by a fixed step.
pub proof fn law_features_measure_the_fingerprint(fingerprint: GpuFingerprint)
    ensures
        ({
            let raw = crate::drivernet::model::raw_features(fingerprint);
            &&& raw.len() == 24
            &&& raw[0] == crate::drivernet::model::vendor_bucket(fingerprint.vendor_id)
            &&& raw[1] == fingerprint.device_id as int / 257
            &&& raw[2] == fingerprint.subsystem_vendor_id as int / 257
            &&& raw[3] == fingerprint.subsystem_device_id as int / 257
            &&& raw[4] == fingerprint.revision
            &&& raw[5] == fingerprint.subclass * 64
            &&& raw[6] == fingerprint.programming_interface * 64
            &&& raw[7] <= 240
            &&& raw[8] == 256 <==> fingerprint.capability_flags & CAP_MSI != 0
            &&& raw[8] == 256 || raw[8] == 0
            &&& raw[9] == 256 <==> fingerprint.capability_flags & CAP_MSIX != 0
            &&& raw[9] == 256 || raw[9] == 0
            &&& raw[10] == 256 <==> fingerprint.capability_flags & CAP_PCIE != 0
            &&& raw[10] == 256 || raw[10] == 0
            &&& raw[11] == 42 * crate::drivernet::model::flagged_below(
                fingerprint.bars@,
                BAR_PRESENT,
                6,
            )
            &&& raw[12] == 42 * crate::drivernet::model::flagged_below(
                fingerprint.bars@,
                BAR_64BIT,
                6,
            )
            &&& raw[13] == 42 * crate::drivernet::model::flagged_below(
                fingerprint.bars@,
                BAR_PREFETCHABLE,
                6,
            )
            &&& raw[14] == crate::drivernet::model::resource_tier(fingerprint.declared())
            &&& raw[15] == 256 <==> fingerprint.interrupt_pin != 0
            &&& raw[15] == 256 || raw[15] == 0
            &&& raw[16] == 256 <==> fingerprint.topology_flags & TOPOLOGY_BOOT_DISPLAY != 0
            &&& raw[16] == 256 || raw[16] == 0
            &&& raw[17] == 256 <==> fingerprint.topology_flags & TOPOLOGY_INTERNAL_PANEL != 0
            &&& raw[17] == 256 || raw[17] == 0
            &&& raw[18] == 256 <==> fingerprint.topology_flags & TOPOLOGY_REMOVABLE != 0
            &&& raw[18] == 256 || raw[18] == 0
            &&& raw[19] == 256 <==> fingerprint.topology_flags & TOPOLOGY_IOMMU_PRESENT != 0
            &&& raw[19] == 256 || raw[19] == 0
            &&& raw[20] == 256 <==> fingerprint.topology_flags & TOPOLOGY_IOMMU_ISOLATED != 0
            &&& raw[20] == 256 || raw[20] == 0
            &&& raw[21] == 256 <==> fingerprint.firmware_framebuffer.usable()
            &&& raw[21] == 256 || raw[21] == 0
            &&& raw[22] == fingerprint.root_port_depth * 32
            &&& raw[23] == fingerprint.sibling_display_functions * 64
        }),
{
    reveal(crate::drivernet::model::raw_feature);
    law_buckets_are_even(fingerprint.device_id);
    law_buckets_are_even(fingerprint.subsystem_vendor_id);
    law_buckets_are_even(fingerprint.subsystem_device_id);
    lemma_flagged_is_bounded(fingerprint.bars@, BAR_PRESENT, 6);
    lemma_flagged_is_bounded(fingerprint.bars@, BAR_64BIT, 6);
    lemma_flagged_is_bounded(fingerprint.bars@, BAR_PREFETCHABLE, 6);
    lemma_ones_are_bounded(fingerprint.capability_flags, 32);
}

proof fn lemma_flagged_is_bounded(bars: Seq<BarEvidence>, mask: u8, upto: int)
    requires
        0 <= upto <= 6,
    ensures
        0 <= crate::drivernet::model::flagged_below(bars, mask, upto) <= upto,
    decreases upto,
{
    if upto > 0 {
        lemma_flagged_is_bounded(bars, mask, upto - 1);
    }
}

proof fn lemma_ones_are_bounded(flags: u32, bits: int)
    requires
        0 <= bits <= 32,
    ensures
        0 <= crate::drivernet::model::ones_below(flags, bits) <= bits,
    decreases bits,
{
    if bits > 0 {
        lemma_ones_are_bounded(flags, bits - 1);
    }
}

/// A register with the flag counts once and one without does not: between two
/// functions that differ in one register the counts differ by one or not at
/// all.
pub proof fn law_flagged_registers_are_counted(
    bars: Seq<BarEvidence>,
    other: Seq<BarEvidence>,
    mask: u8,
    index: int,
)
    requires
        0 <= index < 6,
        forall|i: int| 0 <= i < 6 && i != index ==> (#[trigger] other[i]) == bars[i],
    ensures
        crate::drivernet::model::flagged_below(other, mask, 6)
            - crate::drivernet::model::flagged_below(bars, mask, 6) == (if other[index].flags & mask
            != 0 {
            1int
        } else {
            0
        }) - (if bars[index].flags & mask != 0 {
            1int
        } else {
            0
        }),
        (forall|i: int| 0 <= i < 6 ==> (#[trigger] bars[i]).flags & mask == 0)
            ==> crate::drivernet::model::flagged_below(bars, mask, 6) == 0,
{
    reveal_with_fuel(crate::drivernet::model::flagged_below, 7);
    assert(index == 0 || other[0] == bars[0]);
    assert(index == 1 || other[1] == bars[1]);
    assert(index == 2 || other[2] == bars[2]);
    assert(index == 3 || other[3] == bars[3]);
    assert(index == 4 || other[4] == bars[4]);
    assert(index == 5 || other[5] == bars[5]);
    if forall|i: int| 0 <= i < 6 ==> (#[trigger] bars[i]).flags & mask == 0 {
        assert(bars[0].flags & mask == 0 && bars[1].flags & mask == 0 && bars[2].flags & mask == 0
            && bars[3].flags & mask == 0 && bars[4].flags & mask == 0 && bars[5].flags & mask == 0);
    }
}

/// A bit that is set counts one towards the density, up to fifteen, in steps of
/// sixteen.
pub proof fn law_bits_are_counted(flags: u32, bits: int)
    requires
        0 <= bits < 32,
    ensures
        crate::drivernet::model::ones_below(flags, bits + 1)
            - crate::drivernet::model::ones_below(flags, bits) == (flags >> (bits as u32)) & 1,
        crate::drivernet::model::density_of(flags) % 16 == 0,
        crate::drivernet::model::density_of(flags) == 240 <==> crate::drivernet::model::ones_below(
            flags,
            32,
        ) >= 15,
        crate::drivernet::model::ones_below(flags, 32) < 15 ==> crate::drivernet::model::density_of(
            flags,
        ) / 16 == crate::drivernet::model::ones_below(flags, 32),
{
    lemma_ones_are_bounded(flags, 32);
    lemma_one_bit(flags >> (bits as u32));
}

proof fn lemma_one_bit(word: u32)
    ensures
        word & 1 == 0 || word & 1 == 1,
{
    crate::bits::lemma_word32(word);
}

/// Features 1, 2, 3 and 14 are known only of a function that reports its
/// device, its subsystem vendor, its subsystem device and its memory; the other
/// twenty always are, and there is no further feature.
pub proof fn law_which_features_are_known(fingerprint: GpuFingerprint)
    ensures
        ({
            let known = crate::drivernet::model::known_features(fingerprint);
            &&& known & 0x00ff_bff1 == 0x00ff_bff1
            &&& known & 0x0000_0002 != 0 <==> fingerprint.device_id != 0xffff
            &&& known & 0x0000_0004 != 0 <==> fingerprint.subsystem_vendor_id != 0xffff
            &&& known & 0x0000_0008 != 0 <==> fingerprint.subsystem_device_id != 0xffff
            &&& known & 0x0000_4000 != 0 <==> fingerprint.declared() != 0
            &&& known & 0xff00_0000 == 0
        }),
{
    reveal(crate::drivernet::model::known_features);
    lemma_reported_bits(
        fingerprint.device_id != 0xffff,
        fingerprint.subsystem_vendor_id != 0xffff,
        fingerprint.subsystem_device_id != 0xffff,
        fingerprint.declared() != 0,
        false,
        false,
        false,
    );
}

pub open spec fn known_bits(a: bool, b: bool, c: bool, d: bool) -> u32 {
    0x00ff_bff1u32 | (if a {
        2u32
    } else {
        0u32
    }) | (if b {
        4u32
    } else {
        0u32
    }) | (if c {
        8u32
    } else {
        0u32
    }) | (if d {
        0x4000u32
    } else {
        0u32
    })
}

pub open spec fn reason_bits(
    a: bool,
    b: bool,
    c: bool,
    d: bool,
    e: bool,
    f: bool,
    g: bool,
) -> u32 {
    (if a {
        4u32
    } else {
        0u32
    }) | (if b {
        256u32
    } else {
        0u32
    }) | (if c {
        8u32
    } else {
        0u32
    }) | (if d {
        64u32
    } else {
        0u32
    }) | (if e {
        32u32
    } else {
        0u32
    }) | (if f {
        128u32
    } else {
        0u32
    }) | (if g {
        2u32
    } else {
        0u32
    })
}

proof fn lemma_reported_bits(a: bool, b: bool, c: bool, d: bool, e: bool, f: bool, g: bool)
    by (bit_vector)
    ensures
        known_bits(a, b, c, d) & 0x00ff_bff1 == 0x00ff_bff1,
        known_bits(a, b, c, d) & 2 != 0 <==> a,
        known_bits(a, b, c, d) & 4 != 0 <==> b,
        known_bits(a, b, c, d) & 8 != 0 <==> c,
        known_bits(a, b, c, d) & 0x4000 != 0 <==> d,
        known_bits(a, b, c, d) & 0xff00_0000 == 0,
        reason_bits(a, b, c, d, e, f, g) & 4 != 0 <==> a,
        reason_bits(a, b, c, d, e, f, g) & 256 != 0 <==> b,
        reason_bits(a, b, c, d, e, f, g) & 8 != 0 <==> c,
        reason_bits(a, b, c, d, e, f, g) & 64 != 0 <==> d,
        reason_bits(a, b, c, d, e, f, g) & 32 != 0 <==> e,
        reason_bits(a, b, c, d, e, f, g) & 128 != 0 <==> f,
        reason_bits(a, b, c, d, e, f, g) & 2 != 0 <==> g,
        reason_bits(a, b, c, d, e, f, g) & 1 == 0,
        reason_bits(a, b, c, d, e, f, g) & 16 == 0,
        (1u32 << 0) == 1 && (1u32 << 1) == 2 && (1u32 << 2) == 4 && (1u32 << 3) == 8 && (1u32 << 4)
            == 16 && (1u32 << 5) == 32 && (1u32 << 6) == 64 && (1u32 << 7) == 128 && (1u32 << 8)
            == 256,
        8u32 | 128 == 136 && 256u32 | 128 == 384,
{
}

/// The reasons of a decision are bits: 4 for an incomplete inventory, 256 for
/// incomplete configuration, 8 for missing isolation, 64 for a virtual device,
/// 32 for the boot display, 128 for a hot plug port and 2 for a framebuffer that
/// is kept.
pub proof fn law_reasons_tell_the_evidence(fingerprint: GpuFingerprint, policy: OraclePolicy)
    ensures
        ({
            let reasons = crate::drivernet::model::base_reasons_of(fingerprint, policy);
            let flags = fingerprint.topology_flags;
            let vendor = fingerprint.vendor_id;
            &&& reasons & 4 != 0 <==> flags & TOPOLOGY_INVENTORY_OVERFLOW != 0
            &&& reasons & 256 != 0 <==> flags & TOPOLOGY_CONFIG_INCOMPLETE != 0
            &&& reasons & 8 != 0 <==> policy.require_iommu_for_native && flags
                & TOPOLOGY_IOMMU_ISOLATED == 0
            &&& reasons & 64 != 0 <==> flags & TOPOLOGY_VIRTUAL_MACHINE != 0 || vendor == 0x1af4
                || vendor == 0x15ad || vendor == 0x1b36 || vendor == 0x1234
            &&& reasons & 32 != 0 <==> flags & TOPOLOGY_BOOT_DISPLAY != 0
            &&& reasons & 128 != 0 <==> flags & TOPOLOGY_HOTPLUG_PORT != 0
            &&& reasons & 2 != 0 <==> flags & TOPOLOGY_FIRMWARE_FRAMEBUFFER != 0
            &&& reasons & 1 == 0
            &&& reasons & 16 == 0
        }),
{
    reveal(crate::drivernet::model::base_reasons_of);
    let flags = fingerprint.topology_flags;
    let vendor = fingerprint.vendor_id;
    lemma_reported_bits(
        flags & TOPOLOGY_INVENTORY_OVERFLOW != 0,
        flags & TOPOLOGY_CONFIG_INCOMPLETE != 0,
        policy.require_iommu_for_native && flags & TOPOLOGY_IOMMU_ISOLATED == 0,
        flags & TOPOLOGY_VIRTUAL_MACHINE != 0 || vendor == 0x1af4 || vendor == 0x15ad || vendor
            == 0x1b36 || vendor == 0x1234,
        flags & TOPOLOGY_BOOT_DISPLAY != 0,
        flags & TOPOLOGY_HOTPLUG_PORT != 0,
        flags & TOPOLOGY_FIRMWARE_FRAMEBUFFER != 0,
    );
}

/// A normalized feature is the distance from the centre in units of the scale,
/// in steps of 1/256, cut off towards zero; it is zero at the centre and changes
/// its sign with the side.
pub proof fn law_normal_features_are_distances(value: i16, center: i16, scale: i16)
    requires
        scale >= 1,
    ensures
        ({
            let normal = crate::drivernet::model::normalized_feature(value, center, scale);
            let distance = (value - center) * 256;
            &&& value == center ==> normal == 0
            &&& value >= center ==> normal >= 0
            &&& value <= center ==> normal <= 0
            &&& value >= center && normal < i16::MAX ==> normal * scale <= distance < (normal + 1)
                * scale
            &&& value <= center && normal > i16::MIN ==> (normal - 1) * scale < distance <= normal
                * scale
        }),
{
    let distance = (value - center) * 256;
    let divisor = scale as int;
    if value >= center {
        let q = distance / divisor;
        assert(q * divisor <= distance < (q + 1) * divisor && q >= 0) by (nonlinear_arith)
            requires
                divisor >= 1,
                distance >= 0,
                q == distance / divisor,
        ;
    }
    if value <= center {
        let away = -distance;
        let q = away / divisor;
        assert(q * divisor <= away < (q + 1) * divisor && q >= 0) by (nonlinear_arith)
            requires
                divisor >= 1,
                away >= 0,
                q == away / divisor,
        ;
        assert((-q) * divisor == -(q * divisor) && (-q - 1) * divisor == -((q + 1) * divisor))
            by (nonlinear_arith);
    }
}

/// Which functions a strategy admits: each native one its own vendor, the
/// virtual ones only where policy lets them, all but the virtual adapter only
/// with mapped memory, the firmware one a usable framebuffer, and quarantine
/// everything.
pub proof fn law_strategies_admit_their_vendor(
    fingerprint: GpuFingerprint,
    policy: OraclePolicy,
)
    ensures
        crate::drivernet::model::vendor_admits(DriverStrategy::HermesNvidia, fingerprint, policy)
            <==> fingerprint.vendor_id == 0x10de && fingerprint.maps_memory(),
        crate::drivernet::model::vendor_admits(DriverStrategy::AmdDisplay, fingerprint, policy)
            <==> fingerprint.vendor_id == 0x1002 && fingerprint.maps_memory(),
        crate::drivernet::model::vendor_admits(DriverStrategy::IntelDisplay, fingerprint, policy)
            <==> fingerprint.vendor_id == 0x8086 && fingerprint.maps_memory(),
        crate::drivernet::model::vendor_admits(DriverStrategy::VirtioGpu, fingerprint, policy)
            <==> fingerprint.vendor_id == 0x1af4 && fingerprint.maps_memory()
            && policy.allow_virtual_devices,
        crate::drivernet::model::vendor_admits(DriverStrategy::VirtualSvga, fingerprint, policy)
            <==> (fingerprint.vendor_id == 0x15ad || fingerprint.vendor_id == 0x1b36
            || fingerprint.vendor_id == 0x1234) && policy.allow_virtual_devices,
        crate::drivernet::model::vendor_admits(
            DriverStrategy::FirmwareFramebuffer,
            fingerprint,
            policy,
        ) <==> fingerprint.firmware_framebuffer.usable(),
        crate::drivernet::model::vendor_admits(DriverStrategy::Quarantine, fingerprint, policy),
{
}

/// A gate opens for a strategy that admits the function, except that native
/// ones stay shut while the inventory overflowed under a strict policy, while
/// isolation is required and missing, and while configuration is incomplete.
pub proof fn law_when_a_gate_opens(
    strategy: DriverStrategy,
    fingerprint: GpuFingerprint,
    policy: OraclePolicy,
)
    ensures
        ({
            let (open, reason) = crate::drivernet::model::gate_of(strategy, fingerprint, policy);
            let flags = fingerprint.topology_flags;
            &&& open <==> crate::drivernet::model::vendor_admits(strategy, fingerprint, policy) && (
            strategy.index() < 5 ==> (flags & TOPOLOGY_INVENTORY_OVERFLOW == 0
                || !policy.quarantine_on_inventory_overflow) && (flags & TOPOLOGY_IOMMU_ISOLATED
                != 0 || !policy.require_iommu_for_native) && flags & TOPOLOGY_CONFIG_INCOMPLETE
                == 0)
            &&& open <==> reason == 0
            &&& reason == 0 || reason == 4 || reason == 136 || reason == 384 || reason == 16
            &&& reason == 4 <==> strategy.index() < 5 && flags & TOPOLOGY_INVENTORY_OVERFLOW != 0
                && policy.quarantine_on_inventory_overflow
            &&& reason == 136 ==> flags & TOPOLOGY_IOMMU_ISOLATED == 0
            &&& reason == 384 ==> flags & TOPOLOGY_CONFIG_INCOMPLETE != 0
            &&& reason == 16 ==> !crate::drivernet::model::vendor_admits(
                strategy,
                fingerprint,
                policy,
            )
        }),
{
    lemma_reported_bits(false, false, false, false, false, false, false);
}

/// An admissible candidate stands before an inadmissible one, a higher score
/// before a lower one, and at equal scores the strategy that is preferred; of
/// two candidates for different strategies exactly one stands first.
pub proof fn law_the_better_candidate_stands_first(left: RankedCandidate, right: RankedCandidate)
    ensures
        left.admissible && !right.admissible ==> crate::drivernet::model::outranks(left, right),
        left.admissible == right.admissible && left.score > right.score
            ==> crate::drivernet::model::outranks(left, right),
        left.admissible == right.admissible && left.score == right.score && left.strategy.index()
            < right.strategy.index() ==> crate::drivernet::model::outranks(left, right),
        crate::drivernet::model::outranks(left, right) ==> !crate::drivernet::model::outranks(
            right,
            left,
        ),
        left.strategy != right.strategy ==> crate::drivernet::model::outranks(left, right)
            || crate::drivernet::model::outranks(right, left),
{
}

/// Moving a candidate forward puts it where it is wanted, shifts those between
/// back by one and leaves the others.
pub proof fn law_moving_forward_keeps_the_others_in_order(
    ranked: Seq<RankedCandidate>,
    from: int,
    to: int,
)
    requires
        0 <= from <= to < ranked.len(),
    ensures
        ({
            let moved = crate::drivernet::model::rotated(ranked, from, to);
            &&& moved == ranked.remove(to).insert(from, ranked[to])
            &&& moved.len() == ranked.len()
        }),
{
    let moved = crate::drivernet::model::rotated(ranked, from, to);
    assert(moved =~= ranked.remove(to).insert(from, ranked[to]));
}

/// A strategy is found at its first place.
pub proof fn law_a_strategy_is_found_first(
    ranked: Seq<RankedCandidate>,
    strategy: DriverStrategy,
    from: int,
)
    requires
        0 <= from <= ranked.len(),
    ensures
        ({
            let place = crate::drivernet::model::strategy_place(ranked, strategy, from);
            &&& from <= place <= ranked.len()
            &&& place < ranked.len() ==> ranked[place].strategy == strategy
            &&& forall|i: int| from <= i < place ==> (#[trigger] ranked[i]).strategy != strategy
        }),
    decreases ranked.len() - from,
{
    if from < ranked.len() && ranked[from].strategy != strategy {
        law_a_strategy_is_found_first(ranked, strategy, from + 1);
    }
}

/// Where confidence is low, the framebuffer that firmware left leads if it is
/// usable and quarantine leads if not, and the others keep their order.
pub proof fn law_a_doubtful_decision_leads_with_the_safe_strategy(
    ranked: Seq<RankedCandidate>,
    firmware_usable: bool,
)
    requires
        exists|i: int|
            0 <= i < ranked.len() && (#[trigger] ranked[i]).strategy == (if firmware_usable {
                DriverStrategy::FirmwareFramebuffer
            } else {
                DriverStrategy::Quarantine
            }),
    ensures
        ({
            let promoted = crate::drivernet::model::fallback_promoted(ranked, firmware_usable);
            &&& promoted.len() == ranked.len()
            &&& promoted[0].strategy == (if firmware_usable {
                DriverStrategy::FirmwareFramebuffer
            } else {
                DriverStrategy::Quarantine
            })
            &&& exists|place: int|
                0 <= place < ranked.len() && promoted == #[trigger] ranked.remove(place).insert(
                    0,
                    ranked[place],
                )
        }),
{
    let wanted = crate::drivernet::model::safe_fallback(firmware_usable);
    law_a_strategy_is_found_first(ranked, wanted, 0);
    let place = crate::drivernet::model::strategy_place(ranked, wanted, 0);
    law_moving_forward_keeps_the_others_in_order(ranked, 0, place);
    assert(crate::drivernet::model::fallback_promoted(ranked, firmware_usable) == ranked.remove(
        place,
    ).insert(0, ranked[place]));
}

/// Scores of admissible candidates are kept in their order: the first of them
/// is the score of the first admissible candidate.
pub proof fn law_only_admissible_scores_count(ranked: Seq<RankedCandidate>, upto: int)
    requires
        0 <= upto < ranked.len(),
    ensures
        ranked[upto].admissible ==> crate::drivernet::model::admissible_scores(ranked, upto + 1)
            == crate::drivernet::model::admissible_scores(ranked, upto).push(ranked[upto].score),
        !ranked[upto].admissible ==> crate::drivernet::model::admissible_scores(ranked, upto + 1)
            == crate::drivernet::model::admissible_scores(ranked, upto),
        crate::drivernet::model::admissible_scores(ranked, 0).len() == 0,
{
}

/// The margin of a decision is how far the best admissible score lies above the
/// second best, and without a second it is unbounded.
pub proof fn law_the_margin_is_best_minus_second(first: RankedCandidate, second: RankedCandidate)
    requires
        first.admissible,
        second.score > i64::MIN,
        i64::MIN <= first.score - second.score <= i64::MAX,
    ensures
        second.admissible ==> crate::drivernet::model::best_margin_of(seq![first, second])
            == first.score - second.score,
        !second.admissible ==> crate::drivernet::model::best_margin_of(seq![first, second])
            == i64::MAX,
        crate::drivernet::model::best_margin_of(seq![first]) == i64::MAX,
{
    reveal_with_fuel(crate::drivernet::model::admissible_scores, 3);
}

/// Margins are measured from the runner-up; an inadmissible candidate has the
/// lowest margin of all. Nothing else about a candidate changes.
pub proof fn law_margins_are_measured_from_the_runner_up(
    ranked: Seq<RankedCandidate>,
    runner_up: i64,
    i: int,
)
    requires
        0 <= i < ranked.len(),
    ensures
        ({
            let weighed = crate::drivernet::model::margins_set(ranked, runner_up)[i];
            &&& weighed.strategy == ranked[i].strategy
            &&& weighed.score == ranked[i].score
            &&& weighed.admissible == ranked[i].admissible
            &&& weighed.gate_reason == ranked[i].gate_reason
            &&& !ranked[i].admissible ==> weighed.margin == i64::MIN
            &&& ranked[i].admissible && i64::MIN <= ranked[i].score - runner_up <= i64::MAX
                ==> weighed.margin + runner_up == ranked[i].score
        }),
{
}

/// Confidence is none without a lead, whole for a lone candidate and from eight
/// times the wanted margin on, and in between the part of that in 65535ths.
pub proof fn law_confidence_grows_with_the_margin(
    model: ModelWeights,
    margin: i64,
    strategy: DriverStrategy,
)
    requires
        model.minimum_margin[strategy.index() as int] >= 1,
        margin <= 0x4000_0000_0000 || margin == i64::MAX,
    ensures
        ({
            let confidence = crate::drivernet::model::confidence_of(model, margin, strategy);
            let whole = 8 * model.minimum_margin[strategy.index() as int];
            &&& margin <= 0 ==> confidence == 0
            &&& margin == i64::MAX ==> confidence == 65535
            &&& 0 < margin < i64::MAX && margin >= whole ==> confidence == 65535
            &&& 0 < margin < whole ==> confidence * whole <= margin * 65535 < (confidence + 1)
                * whole
        }),
{
    reveal(crate::drivernet::model::confidence_of);
    let whole = 8 * model.minimum_margin[strategy.index() as int];
    if 0 < margin < i64::MAX {
        let product = margin * 65535;
        let part = product / whole;
        assert(part * whole <= product < (part + 1) * whole) by (nonlinear_arith)
            requires
                whole >= 1,
                product >= 0,
                part == product / whole,
        ;
        if margin >= whole {
            assert(part >= 65535) by (nonlinear_arith)
                requires
                    whole >= 1,
                    margin >= whole,
                    product == margin * 65535,
                    product < (part + 1) * whole,
            ;
        } else {
            assert(part <= 65535) by (nonlinear_arith)
                requires
                    whole >= 1,
                    0 < margin < whole,
                    product == margin * 65535,
                    part * whole <= product,
            ;
        }
    }
}

/// An expectation matches the compiled model exactly when schema, corpus and
/// model agree.
pub proof fn law_an_expectation_names_one_model(
    expectation: ModelExpectation,
    model: ModelWeights,
)
    ensures
        expectation.matches_compiled(&model) <==> expectation.schema == model.schema
            && expectation.corpus_root == model.corpus_root && expectation.model_root
            == model.model_root,
{
}

/// The standing policy asks for isolation, keeps the boot framebuffer, admits
/// virtual devices, shuts on overflow and wants a confidence of 12000 in 65536.
pub proof fn law_the_standing_policy()
    ensures
        OraclePolicy::black_lab().require_iommu_for_native,
        OraclePolicy::black_lab().preserve_boot_framebuffer,
        OraclePolicy::black_lab().allow_virtual_devices,
        OraclePolicy::black_lab().quarantine_on_inventory_overflow,
        OraclePolicy::black_lab().minimum_confidence_q16 == 12000,
{
}

} // verus!
