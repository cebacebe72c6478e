//! Ranking of driver strategies for one fingerprint.

use super::fingerprint::{
    BarEvidence, GpuFingerprint, BAR_64BIT, BAR_PREFETCHABLE, CAP_MSI, CAP_MSIX, CAP_PCIE,
    TOPOLOGY_BOOT_DISPLAY, TOPOLOGY_CONFIG_INCOMPLETE, TOPOLOGY_FIRMWARE_FRAMEBUFFER,
    TOPOLOGY_HOTPLUG_PORT, TOPOLOGY_INTERNAL_PANEL, TOPOLOGY_INVENTORY_OVERFLOW,
    TOPOLOGY_IOMMU_PRESENT, TOPOLOGY_REMOVABLE, TOPOLOGY_VIRTUAL_MACHINE, VENDOR_AMD, VENDOR_BOCHS,
    VENDOR_INTEL, VENDOR_NVIDIA, VENDOR_REDHAT, VENDOR_VIRTIO, VENDOR_VMWARE,
};
use super::model_weights::{ModelWeights, FEATURE_COUNT, STRATEGY_COUNT};
use crate::seal::{flag, Sealer};
use vstd::prelude::*;

verus! {

pub const MAXIMUM_RANKED_CANDIDATES: usize = 7;

pub const FEATURE_Q: i32 = 256;

pub const REASON_LOW_MARGIN: u32 = 1 << 0;

pub const REASON_FIRMWARE_PRESERVED: u32 = 1 << 1;

pub const REASON_INVENTORY_INCOMPLETE: u32 = 1 << 2;

pub const REASON_IOMMU_ABSENT: u32 = 1 << 3;

pub const REASON_UNKNOWN_VENDOR: u32 = 1 << 4;

pub const REASON_BOOT_DISPLAY: u32 = 1 << 5;

pub const REASON_VIRTUAL_DEVICE: u32 = 1 << 6;

pub const REASON_NATIVE_GATED: u32 = 1 << 7;

pub const REASON_CONFIG_INCOMPLETE: u32 = 1 << 8;

/// The features that are known of every fingerprint.
pub const ALWAYS_KNOWN: u32 = 0x00ff_bff1;

/// The identity of a model.
#[derive(Clone, Copy, Debug, PartialEq, Eq, Structural)]
pub struct ModelExpectation {
    pub schema: u32,
    pub corpus_root: u64,
    pub model_root: u64,
}

impl ModelExpectation {
    /// The identity that a model carries.
    #[verifier::allow_in_spec]
    pub fn compiled(model: &ModelWeights) -> ModelExpectation
        returns
            (ModelExpectation {
                schema: model.schema,
                corpus_root: model.corpus_root,
                model_root: model.model_root,
            }),
    {
        ModelExpectation {
            schema: model.schema,
            corpus_root: model.corpus_root,
            model_root: model.model_root,
        }
    }

    #[verifier::allow_in_spec]
    pub fn matches_compiled(self, model: &ModelWeights) -> bool
        returns
            self == ModelExpectation::compiled(model),
    {
        self == ModelExpectation::compiled(model)
    }
}

#[derive(Clone, Copy, Debug, PartialEq, Eq, Structural)]
pub enum DriverStrategy {
    HermesNvidia,
    AmdDisplay,
    IntelDisplay,
    VirtioGpu,
    VirtualSvga,
    FirmwareFramebuffer,
    Quarantine,
}

impl DriverStrategy {
    #[verifier::allow_in_spec]
    pub fn index(self) -> usize
        returns
            (match self {
                DriverStrategy::HermesNvidia => 0usize,
                DriverStrategy::AmdDisplay => 1usize,
                DriverStrategy::IntelDisplay => 2usize,
                DriverStrategy::VirtioGpu => 3usize,
                DriverStrategy::VirtualSvga => 4usize,
                DriverStrategy::FirmwareFramebuffer => 5usize,
                DriverStrategy::Quarantine => 6usize,
            }),
    {
        match self {
            DriverStrategy::HermesNvidia => 0,
            DriverStrategy::AmdDisplay => 1,
            DriverStrategy::IntelDisplay => 2,
            DriverStrategy::VirtioGpu => 3,
            DriverStrategy::VirtualSvga => 4,
            DriverStrategy::FirmwareFramebuffer => 5,
            DriverStrategy::Quarantine => 6,
        }
    }

    /// The strategy with an index; indices past the last name the last.
    #[verifier::allow_in_spec]
    pub fn from_index(index: usize) -> DriverStrategy
        returns
            (match index {
                0 => DriverStrategy::HermesNvidia,
                1 => DriverStrategy::AmdDisplay,
                2 => DriverStrategy::IntelDisplay,
                3 => DriverStrategy::VirtioGpu,
                4 => DriverStrategy::VirtualSvga,
                5 => DriverStrategy::FirmwareFramebuffer,
                _ => DriverStrategy::Quarantine,
            }),
    {
        match index {
            0 => DriverStrategy::HermesNvidia,
            1 => DriverStrategy::AmdDisplay,
            2 => DriverStrategy::IntelDisplay,
            3 => DriverStrategy::VirtioGpu,
            4 => DriverStrategy::VirtualSvga,
            5 => DriverStrategy::FirmwareFramebuffer,
            _ => DriverStrategy::Quarantine,
        }
    }

    pub fn name(self) -> (name: &'static str)
        ensures
            name@ == (match self {
                DriverStrategy::HermesNvidia => "hermes-nvidia"@,
                DriverStrategy::AmdDisplay => "amd-display"@,
                DriverStrategy::IntelDisplay => "intel-display"@,
                DriverStrategy::VirtioGpu => "virtio-gpu"@,
                DriverStrategy::VirtualSvga => "virtual-svga"@,
                DriverStrategy::FirmwareFramebuffer => "firmware-framebuffer"@,
                DriverStrategy::Quarantine => "quarantine"@,
            }),
    {
        match self {
            DriverStrategy::HermesNvidia => "hermes-nvidia",
            DriverStrategy::AmdDisplay => "amd-display",
            DriverStrategy::IntelDisplay => "intel-display",
            DriverStrategy::VirtioGpu => "virtio-gpu",
            DriverStrategy::VirtualSvga => "virtual-svga",
            DriverStrategy::FirmwareFramebuffer => "firmware-framebuffer",
            DriverStrategy::Quarantine => "quarantine",
        }
    }

    /// Whether the strategy drives the hardware itself.
    #[verifier::allow_in_spec]
    pub fn native(self) -> bool
        returns
            self != DriverStrategy::FirmwareFramebuffer && self != DriverStrategy::Quarantine,
    {
        self != DriverStrategy::FirmwareFramebuffer && self != DriverStrategy::Quarantine
    }
}

#[derive(Clone, Copy, Debug, PartialEq, Eq)]
pub struct FeatureVector {
    pub values: [i16; FEATURE_COUNT],
    pub known_mask: u32,
    pub root: u64,
}

#[derive(Clone, Copy, Debug, PartialEq, Eq)]
pub struct RankedCandidate {
    pub strategy: DriverStrategy,
    pub score: i64,
    pub margin: i64,
    pub admissible: bool,
    pub gate_reason: u32,
}

#[derive(Clone, Copy, Debug, PartialEq, Eq)]
pub struct OraclePolicy {
    pub require_iommu_for_native: bool,
    pub preserve_boot_framebuffer: bool,
    pub minimum_confidence_q16: u16,
    pub allow_virtual_devices: bool,
    pub quarantine_on_inventory_overflow: bool,
}

impl OraclePolicy {
    #[verifier::allow_in_spec]
    pub fn black_lab() -> OraclePolicy
        returns
            (OraclePolicy {
                require_iommu_for_native: true,
                preserve_boot_framebuffer: true,
                minimum_confidence_q16: 12_000,
                allow_virtual_devices: true,
                quarantine_on_inventory_overflow: true,
            }),
    {
        OraclePolicy {
            require_iommu_for_native: true,
            preserve_boot_framebuffer: true,
            minimum_confidence_q16: 12_000,
            allow_virtual_devices: true,
            quarantine_on_inventory_overflow: true,
        }
    }
}

#[derive(Clone, Copy, Debug, PartialEq, Eq, Structural)]
pub enum OracleError {
    InvalidSecret,
    InvalidFingerprint,
    ModelShape,
    ModelAuthority,
    Arithmetic,
}

// Features.

/// The bucket of a vendor.
#[verifier::allow_in_spec]
pub fn vendor_bucket(vendor: u16) -> i16
    returns
        (if vendor == VENDOR_NVIDIA {
            256i16
        } else if vendor == VENDOR_AMD {
            224i16
        } else if vendor == VENDOR_INTEL {
            192i16
        } else if vendor == VENDOR_VIRTIO {
            160i16
        } else if vendor == VENDOR_VMWARE {
            144i16
        } else if vendor == VENDOR_REDHAT {
            128i16
        } else if vendor == VENDOR_BOCHS {
            112i16
        } else if vendor == 0xffff {
            0i16
        } else {
            64i16
        }),
{
    match vendor {
        VENDOR_NVIDIA => 256,
        VENDOR_AMD => 224,
        VENDOR_INTEL => 192,
        VENDOR_VIRTIO => 160,
        VENDOR_VMWARE => 144,
        VENDOR_REDHAT => 128,
        VENDOR_BOCHS => 112,
        0xffff => 0,
        _ => 64,
    }
}

/// A 16-bit value scaled to a byte.
#[verifier::allow_in_spec]
pub fn bucket_u16(value: u16) -> i16
    returns
        (value as int * 255 / 65535) as i16,
{
    let scaled: u32 = ((value as u32) * 255) / 65535;
    scaled as i16
}

/// How many of the lowest `bits` bits are set.
pub open spec fn ones_below(flags: u32, bits: int) -> int
    decreases bits,
{
    if bits <= 0 {
        0
    } else {
        ones_below(flags, bits - 1) + if (flags >> ((bits - 1) as u32)) & 1 == 1 {
            1int
        } else {
            0int
        }
    }
}

pub open spec fn density_of(flags: u32) -> i16 {
    let ones = ones_below(flags, 32);
    ((if ones > 15 {
        15
    } else {
        ones
    }) * 16) as i16
}

pub fn capability_density(flags: u32) -> (density: i16)
    ensures
        density == density_of(flags),
{
    let mut ones: i16 = 0;
    let mut bit: u32 = 0;
    while bit < 32
        invariant
            bit <= 32,
            0 <= ones <= bit,
            ones == ones_below(flags, bit as int),
        decreases 32 - bit,
    {
        if (flags >> bit) & 1 == 1 {
            ones += 1;
        }
        bit += 1;
    }
    if ones > 15 {
        15 * 16
    } else {
        ones * 16
    }
}

#[verifier::allow_in_spec]
pub fn bool_feature(value: bool) -> i16
    returns
        (if value {
            256i16
        } else {
            0i16
        }),
{
    if value {
        256
    } else {
        0
    }
}

/// How many of the first `upto` registers carry a flag.
pub open spec fn flagged_below(bars: Seq<BarEvidence>, mask: u8, upto: int) -> int
    decreases upto,
{
    if upto <= 0 {
        0
    } else {
        flagged_below(bars, mask, upto - 1) + if bars[upto - 1].flags & mask != 0 {
            1int
        } else {
            0int
        }
    }
}

pub open spec fn flagged_feature(bars: Seq<BarEvidence>, mask: u8) -> i16 {
    (flagged_below(bars, mask, 6) * 42) as i16
}

fn count_flagged(fingerprint: &GpuFingerprint, mask: u8) -> (feature: i16)
    ensures
        feature == flagged_feature(fingerprint.bars@, mask),
        0 <= feature <= 252,
{
    let mut count: i16 = 0;
    let mut index: usize = 0;
    while index < 6
        invariant
            index <= 6,
            0 <= count <= index,
            count == flagged_below(fingerprint.bars@, mask, index as int),
        decreases 6 - index,
    {
        if fingerprint.bars[index].flags & mask != 0 {
            count += 1;
        }
        index += 1;
    }
    count * 42
}

pub fn bar_count(fingerprint: &GpuFingerprint) -> (feature: i16)
    ensures
        feature == flagged_feature(fingerprint.bars@, super::fingerprint::BAR_PRESENT),
{
    count_flagged(fingerprint, super::fingerprint::BAR_PRESENT)
}

pub fn mmio64_count(fingerprint: &GpuFingerprint) -> (feature: i16)
    ensures
        feature == flagged_feature(fingerprint.bars@, BAR_64BIT),
{
    count_flagged(fingerprint, BAR_64BIT)
}

pub fn prefetchable_count(fingerprint: &GpuFingerprint) -> (feature: i16)
    ensures
        feature == flagged_feature(fingerprint.bars@, BAR_PREFETCHABLE),
{
    count_flagged(fingerprint, BAR_PREFETCHABLE)
}

/// The tier of a resource size, by mebibytes.
#[verifier::allow_in_spec]
pub fn resource_tier(bytes: u64) -> i16
    returns
        (if bytes < 0x10_0000 {
            0i16
        } else if bytes < 0x100_0000 {
            32i16
        } else if bytes < 0x400_0000 {
            64i16
        } else if bytes < 0x1000_0000 {
            96i16
        } else if bytes < 0x4000_0000 {
            128i16
        } else if bytes < 0x1_0000_0000 {
            160i16
        } else if bytes < 0x4_0000_0000 {
            192i16
        } else {
            224i16
        }),
{
    let mib: u64 = bytes / 0x10_0000;
    if mib == 0 {
        0
    } else if mib < 16 {
        32
    } else if mib < 64 {
        64
    } else if mib < 256 {
        96
    } else if mib < 1024 {
        128
    } else if mib < 4096 {
        160
    } else if mib < 16384 {
        192
    } else {
        224
    }
}

/// A feature of a fingerprint before it is centred and scaled.
#[verifier::opaque]
pub open spec fn raw_feature(fingerprint: GpuFingerprint, feature: int) -> i16 {
    if feature == 0 {
        vendor_bucket(fingerprint.vendor_id)
    } else if feature == 1 {
        bucket_u16(fingerprint.device_id)
    } else if feature == 2 {
        bucket_u16(fingerprint.subsystem_vendor_id)
    } else if feature == 3 {
        bucket_u16(fingerprint.subsystem_device_id)
    } else if feature == 4 {
        fingerprint.revision as i16
    } else if feature == 5 {
        (fingerprint.subclass * 64) as i16
    } else if feature == 6 {
        (fingerprint.programming_interface * 64) as i16
    } else if feature == 7 {
        density_of(fingerprint.capability_flags)
    } else if feature == 8 {
        bool_feature(fingerprint.capability_flags & CAP_MSI != 0)
    } else if feature == 9 {
        bool_feature(fingerprint.capability_flags & CAP_MSIX != 0)
    } else if feature == 10 {
        bool_feature(fingerprint.capability_flags & CAP_PCIE != 0)
    } else if feature == 11 {
        flagged_feature(fingerprint.bars@, super::fingerprint::BAR_PRESENT)
    } else if feature == 12 {
        flagged_feature(fingerprint.bars@, BAR_64BIT)
    } else if feature == 13 {
        flagged_feature(fingerprint.bars@, BAR_PREFETCHABLE)
    } else if feature == 14 {
        resource_tier(fingerprint.declared())
    } else if feature == 15 {
        bool_feature(fingerprint.interrupt_pin != 0)
    } else if feature == 16 {
        bool_feature(fingerprint.boot_display())
    } else if feature == 17 {
        bool_feature(fingerprint.topology_flags & TOPOLOGY_INTERNAL_PANEL != 0)
    } else if feature == 18 {
        bool_feature(fingerprint.topology_flags & TOPOLOGY_REMOVABLE != 0)
    } else if feature == 19 {
        bool_feature(fingerprint.topology_flags & TOPOLOGY_IOMMU_PRESENT != 0)
    } else if feature == 20 {
        bool_feature(fingerprint.iommu_isolated())
    } else if feature == 21 {
        bool_feature(fingerprint.firmware_display_usable())
    } else if feature == 22 {
        (fingerprint.root_port_depth * 32) as i16
    } else {
        (fingerprint.sibling_display_functions * 64) as i16
    }
}

pub open spec fn raw_features(fingerprint: GpuFingerprint) -> Seq<i16> {
    Seq::new(FEATURE_COUNT as nat, |feature: int| raw_feature(fingerprint, feature))
}

/// The features that a fingerprint really tells.
#[verifier::opaque]
pub open spec fn known_features(fingerprint: GpuFingerprint) -> u32 {
    ALWAYS_KNOWN | (if fingerprint.device_id != 0xffff {
        2u32
    } else {
        0u32
    }) | (if fingerprint.subsystem_vendor_id != 0xffff {
        4u32
    } else {
        0u32
    }) | (if fingerprint.subsystem_device_id != 0xffff {
        8u32
    } else {
        0u32
    }) | (if fingerprint.declared() != 0 {
        0x4000u32
    } else {
        0u32
    })
}

/// The quotient rounded towards zero.
pub open spec fn truncated_quotient(dividend: int, divisor: int) -> int {
    if dividend >= 0 {
        dividend / divisor
    } else {
        -((-dividend) / divisor)
    }
}

/// A feature centred and scaled, clamped to what fits.
pub open spec fn normalized_feature(value: i16, center: i16, scale: i16) -> i16 {
    let divisor = if scale < 1 {
        1int
    } else {
        scale as int
    };
    let quotient = truncated_quotient((value - center) * 256, divisor);
    if quotient < i16::MIN {
        i16::MIN
    } else if quotient > i16::MAX {
        i16::MAX
    } else {
        quotient as i16
    }
}

pub open spec fn normalized_features(model: ModelWeights, raw: Seq<i16>) -> Seq<i16> {
    Seq::new(
        raw.len(),
        |i: int| normalized_feature(raw[i], model.feature_center[i], model.feature_scale[i]),
    )
}

/// The normalized features of a fingerprint under a model.
pub open spec fn features_of(model: ModelWeights, fingerprint: GpuFingerprint) -> Seq<i16> {
    normalized_features(model, raw_features(fingerprint))
}

/// The words that a feature root seals.
pub open spec fn feature_words(known_mask: u32, values: Seq<i16>) -> Seq<u64> {
    seq![known_mask as u64] + values.map_values(|value: i16| (value as u16) as u64)
}

fn normalize_feature(value: i16, center: i16, scale: i16) -> (normalized: i16)
    ensures
        normalized == normalized_feature(value, center, scale),
{
    let centered: i32 = value as i32 - center as i32;
    let divisor: i32 = if scale < 1 {
        1
    } else {
        scale as i32
    };
    let scaled: i32 = centered * FEATURE_Q;
    let quotient: i32 = if scaled >= 0 {
        scaled / divisor
    } else {
        -((-scaled) / divisor)
    };
    if quotient < i16::MIN as i32 {
        i16::MIN
    } else if quotient > i16::MAX as i32 {
        i16::MAX
    } else {
        quotient as i16
    }
}

pub fn normalize(model: &ModelWeights, values: [i16; FEATURE_COUNT]) -> (normalized: [i16;
    FEATURE_COUNT])
    ensures
        normalized@ == normalized_features(*model, values@),
{
    let mut normalized = values;
    let mut index: usize = 0;
    while index < FEATURE_COUNT
        invariant
            index <= FEATURE_COUNT,
            forall|i: int|
                0 <= i < FEATURE_COUNT ==> #[trigger] normalized@[i] == (if i < index {
                    normalized_feature(
                        values@[i],
                        model.feature_center[i],
                        model.feature_scale[i],
                    )
                } else {
                    values@[i]
                }),
        decreases FEATURE_COUNT - index,
    {
        normalized[index] = normalize_feature(
            values[index],
            model.feature_center[index],
            model.feature_scale[index],
        );
        index += 1;
    }
    assert(normalized@ =~= normalized_features(*model, values@));
    normalized
}

pub fn feature_root(
    fingerprint_root: u64,
    values: &[i16; FEATURE_COUNT],
    known_mask: u32,
) -> (root: u64)
    ensures
        root == crate::seal::seal_of(fingerprint_root, feature_words(known_mask, values@)),
{
    let mut sealer = Sealer::new(fingerprint_root).word(known_mask as u64);
    let mut index: usize = 0;
    while index < FEATURE_COUNT
        invariant
            index <= FEATURE_COUNT,
            sealer.seed() == fingerprint_root,
            sealer.words() =~= feature_words(known_mask, values@.take(index as int)),
        decreases FEATURE_COUNT - index,
    {
        sealer = sealer.word((values[index] as u16) as u64);
        index += 1;
    }
    assert(values@.take(index as int) =~= values@);
    sealer.root()
}

fn raw_feature_values(fingerprint: &GpuFingerprint) -> (raw: [i16; FEATURE_COUNT])
    ensures
        raw@ == raw_features(*fingerprint),
{
    let declared: u64 = fingerprint.total_declared_resources();
    let density: i16 = capability_density(fingerprint.capability_flags);
    let present: i16 = bar_count(fingerprint);
    let wide: i16 = mmio64_count(fingerprint);
    let prefetchable: i16 = prefetchable_count(fingerprint);
    let raw = [
        vendor_bucket(fingerprint.vendor_id),
        bucket_u16(fingerprint.device_id),
        bucket_u16(fingerprint.subsystem_vendor_id),
        bucket_u16(fingerprint.subsystem_device_id),
        fingerprint.revision as i16,
        fingerprint.subclass as i16 * 64,
        fingerprint.programming_interface as i16 * 64,
        density,
        bool_feature(fingerprint.capability_flags & CAP_MSI != 0),
        bool_feature(fingerprint.capability_flags & CAP_MSIX != 0),
        bool_feature(fingerprint.capability_flags & CAP_PCIE != 0),
        present,
        wide,
        prefetchable,
        resource_tier(declared),
        bool_feature(fingerprint.interrupt_pin != 0),
        bool_feature(fingerprint.boot_display()),
        bool_feature(fingerprint.topology_flags & TOPOLOGY_INTERNAL_PANEL != 0),
        bool_feature(fingerprint.topology_flags & TOPOLOGY_REMOVABLE != 0),
        bool_feature(fingerprint.topology_flags & TOPOLOGY_IOMMU_PRESENT != 0),
        bool_feature(fingerprint.iommu_isolated()),
        bool_feature(fingerprint.firmware_display_usable()),
        fingerprint.root_port_depth as i16 * 32,
        fingerprint.sibling_display_functions as i16 * 64,
    ];
    proof {
        assert(raw@[0] == raw_feature(*fingerprint, 0)) by {
            reveal(raw_feature);
        }
        assert(raw@[1] == raw_feature(*fingerprint, 1)) by {
            reveal(raw_feature);
        }
        assert(raw@[2] == raw_feature(*fingerprint, 2)) by {
            reveal(raw_feature);
        }
        assert(raw@[3] == raw_feature(*fingerprint, 3)) by {
            reveal(raw_feature);
        }
        assert(raw@[4] == raw_feature(*fingerprint, 4)) by {
            reveal(raw_feature);
        }
        assert(raw@[5] == raw_feature(*fingerprint, 5)) by {
            reveal(raw_feature);
        }
        assert(raw@[6] == raw_feature(*fingerprint, 6)) by {
            reveal(raw_feature);
        }
        assert(raw@[7] == raw_feature(*fingerprint, 7)) by {
            reveal(raw_feature);
        }
        assert(raw@[8] == raw_feature(*fingerprint, 8)) by {
            reveal(raw_feature);
        }
        assert(raw@[9] == raw_feature(*fingerprint, 9)) by {
            reveal(raw_feature);
        }
        assert(raw@[10] == raw_feature(*fingerprint, 10)) by {
            reveal(raw_feature);
        }
        assert(raw@[11] == raw_feature(*fingerprint, 11)) by {
            reveal(raw_feature);
        }
        assert(raw@[12] == raw_feature(*fingerprint, 12)) by {
            reveal(raw_feature);
        }
        assert(raw@[13] == raw_feature(*fingerprint, 13)) by {
            reveal(raw_feature);
        }
        assert(raw@[14] == raw_feature(*fingerprint, 14)) by {
            reveal(raw_feature);
        }
        assert(raw@[15] == raw_feature(*fingerprint, 15)) by {
            reveal(raw_feature);
        }
        assert(raw@[16] == raw_feature(*fingerprint, 16)) by {
            reveal(raw_feature);
        }
        assert(raw@[17] == raw_feature(*fingerprint, 17)) by {
            reveal(raw_feature);
        }
        assert(raw@[18] == raw_feature(*fingerprint, 18)) by {
            reveal(raw_feature);
        }
        assert(raw@[19] == raw_feature(*fingerprint, 19)) by {
            reveal(raw_feature);
        }
        assert(raw@[20] == raw_feature(*fingerprint, 20)) by {
            reveal(raw_feature);
        }
        assert(raw@[21] == raw_feature(*fingerprint, 21)) by {
            reveal(raw_feature);
        }
        assert(raw@[22] == raw_feature(*fingerprint, 22)) by {
            reveal(raw_feature);
        }
        assert(raw@[23] == raw_feature(*fingerprint, 23)) by {
            reveal(raw_feature);
        }
        assert(raw@ =~= raw_features(*fingerprint));
    }
    raw
}

fn known_feature_mask(fingerprint: &GpuFingerprint) -> (known_mask: u32)
    ensures
        known_mask == known_features(*fingerprint),
{
    proof {
        reveal(known_features);
    }
    let device: u32 = if fingerprint.device_id != 0xffff {
        2
    } else {
        0
    };
    let subsystem_vendor: u32 = if fingerprint.subsystem_vendor_id != 0xffff {
        4
    } else {
        0
    };
    let subsystem_device: u32 = if fingerprint.subsystem_device_id != 0xffff {
        8
    } else {
        0
    };
    let resources: u32 = if fingerprint.total_declared_resources() != 0 {
        0x4000
    } else {
        0
    };
    ALWAYS_KNOWN | device | subsystem_vendor | subsystem_device | resources
}

pub fn encode_features(model: &ModelWeights, fingerprint: &GpuFingerprint) -> (features:
    FeatureVector)
    ensures
        features.values@ == features_of(*model, *fingerprint),
        features.known_mask == known_features(*fingerprint),
        features.root == crate::seal::seal_of(
            fingerprint.evidence_root,
            feature_words(features.known_mask, features.values@),
        ),
{
    let known_mask: u32 = known_feature_mask(fingerprint);
    let values = normalize(model, raw_feature_values(fingerprint));
    FeatureVector {
        values,
        known_mask,
        root: feature_root(fingerprint.evidence_root, &values, known_mask),
    }
}

// Scores and gates.

/// The bias of a strategy plus the weighted known features below `upto`.
pub open spec fn score_below(
    model: ModelWeights,
    strategy: DriverStrategy,
    values: Seq<i16>,
    known_mask: u32,
    upto: int,
) -> int
    decreases upto,
{
    if upto <= 0 {
        model.bias[strategy.index() as int] as int
    } else {
        score_below(model, strategy, values, known_mask, upto - 1) + if known_mask & (1u32 << (
        (upto - 1) as u32)) == 0 {
            0
        } else {
            values[upto - 1] * model.weights[strategy.index() as int][upto - 1]
        }
    }
}

pub open spec fn score_of(
    model: ModelWeights,
    strategy: DriverStrategy,
    values: Seq<i16>,
    known_mask: u32,
) -> int {
    score_below(model, strategy, values, known_mask, FEATURE_COUNT as int)
}

/// The score always fits: no arithmetic error is left to report.
pub fn score_strategy(
    model: &ModelWeights,
    strategy: DriverStrategy,
    features: &FeatureVector,
) -> (score: i64)
    ensures
        score == score_of(*model, strategy, features.values@, features.known_mask),
{
    let row: usize = strategy.index();
    let mut score: i64 = model.bias[row] as i64;
    let mut feature: usize = 0;
    while feature < FEATURE_COUNT
        invariant
            feature <= FEATURE_COUNT,
            row == strategy.index(),
            row < STRATEGY_COUNT,
            score == score_below(
                *model,
                strategy,
                features.values@,
                features.known_mask,
                feature as int,
            ),
            -0x8000_0000 - feature * 0x4000_0000_0000 <= score <= 0x7fff_ffff + feature
                * 0x4000_0000_0000,
        decreases FEATURE_COUNT - feature,
    {
        if features.known_mask & (1u32 << (feature as u32)) != 0 {
            let value: i64 = features.values[feature] as i64;
            let weight: i64 = model.weights[row][feature] as i64;
            assert(-0x4000_0000_0000 <= value * weight <= 0x4000_0000_0000) by (nonlinear_arith)
                requires
                    -0x8000 <= value <= 0x7fff,
                    -0x8000_0000 <= weight <= 0x7fff_ffff,
            ;
            score = score + value * weight;
        }
        feature += 1;
    }
    score
}

/// Whether a strategy drives hardware of this vendor and shape at all.
pub open spec fn vendor_admits(
    strategy: DriverStrategy,
    fingerprint: GpuFingerprint,
    policy: OraclePolicy,
) -> bool {
    match strategy {
        DriverStrategy::HermesNvidia => fingerprint.vendor_id == VENDOR_NVIDIA
            && fingerprint.maps_memory(),
        DriverStrategy::AmdDisplay => fingerprint.vendor_id == VENDOR_AMD
            && fingerprint.maps_memory(),
        DriverStrategy::IntelDisplay => fingerprint.vendor_id == VENDOR_INTEL
            && fingerprint.maps_memory(),
        DriverStrategy::VirtioGpu => policy.allow_virtual_devices && fingerprint.vendor_id
            == VENDOR_VIRTIO && fingerprint.maps_memory(),
        DriverStrategy::VirtualSvga => policy.allow_virtual_devices && (fingerprint.vendor_id
            == VENDOR_VMWARE || fingerprint.vendor_id == VENDOR_REDHAT || fingerprint.vendor_id
            == VENDOR_BOCHS),
        DriverStrategy::FirmwareFramebuffer => fingerprint.firmware_display_usable(),
        DriverStrategy::Quarantine => true,
    }
}

/// Whether a strategy may be tried at all, and if not, why.
pub open spec fn gate_of(
    strategy: DriverStrategy,
    fingerprint: GpuFingerprint,
    policy: OraclePolicy,
) -> (bool, u32) {
    if policy.quarantine_on_inventory_overflow && fingerprint.topology_flags
        & TOPOLOGY_INVENTORY_OVERFLOW != 0 && strategy.native() {
        (false, REASON_INVENTORY_INCOMPLETE)
    } else if policy.require_iommu_for_native && strategy.native()
        && !fingerprint.iommu_isolated() {
        (false, REASON_IOMMU_ABSENT | REASON_NATIVE_GATED)
    } else if strategy.native() && fingerprint.topology_flags & TOPOLOGY_CONFIG_INCOMPLETE != 0 {
        (false, REASON_CONFIG_INCOMPLETE | REASON_NATIVE_GATED)
    } else if vendor_admits(strategy, fingerprint, policy) {
        (true, 0)
    } else {
        (false, REASON_UNKNOWN_VENDOR)
    }
}

pub fn gate_strategy(
    strategy: DriverStrategy,
    fingerprint: &GpuFingerprint,
    policy: OraclePolicy,
) -> (gate: (bool, u32))
    ensures
        gate == gate_of(strategy, *fingerprint, policy),
{
    if policy.quarantine_on_inventory_overflow && fingerprint.topology_flags
        & TOPOLOGY_INVENTORY_OVERFLOW != 0 && strategy != DriverStrategy::FirmwareFramebuffer
        && strategy != DriverStrategy::Quarantine {
        return (false, REASON_INVENTORY_INCOMPLETE);
    }
    if policy.require_iommu_for_native && strategy.native() && !fingerprint.iommu_isolated() {
        return (false, REASON_IOMMU_ABSENT | REASON_NATIVE_GATED);
    }
    if strategy.native() && fingerprint.topology_flags & TOPOLOGY_CONFIG_INCOMPLETE != 0 {
        return (false, REASON_CONFIG_INCOMPLETE | REASON_NATIVE_GATED);
    }
    let admitted = match strategy {
        DriverStrategy::HermesNvidia => fingerprint.vendor_id == VENDOR_NVIDIA
            && fingerprint.has_mmio(),
        DriverStrategy::AmdDisplay => fingerprint.vendor_id == VENDOR_AMD
            && fingerprint.has_mmio(),
        DriverStrategy::IntelDisplay => fingerprint.vendor_id == VENDOR_INTEL
            && fingerprint.has_mmio(),
        DriverStrategy::VirtioGpu => policy.allow_virtual_devices && fingerprint.vendor_id
            == VENDOR_VIRTIO && fingerprint.has_mmio(),
        DriverStrategy::VirtualSvga => policy.allow_virtual_devices && (fingerprint.vendor_id
            == VENDOR_VMWARE || fingerprint.vendor_id == VENDOR_REDHAT || fingerprint.vendor_id
            == VENDOR_BOCHS),
        DriverStrategy::FirmwareFramebuffer => fingerprint.firmware_display_usable(),
        DriverStrategy::Quarantine => true,
    };
    if admitted {
        (true, 0)
    } else {
        (false, REASON_UNKNOWN_VENDOR)
    }
}

/// A strategy scored and gated for a fingerprint, not ranked yet.
pub open spec fn candidate_of(
    model: ModelWeights,
    policy: OraclePolicy,
    fingerprint: GpuFingerprint,
    strategy: DriverStrategy,
) -> RankedCandidate {
    RankedCandidate {
        strategy,
        score: score_of(
            model,
            strategy,
            features_of(model, fingerprint),
            known_features(fingerprint),
        ) as i64,
        margin: 0,
        admissible: gate_of(strategy, fingerprint, policy).0,
        gate_reason: gate_of(strategy, fingerprint, policy).1,
    }
}

// Ranking.

/// The ranking order: admissible first, then the higher score, then the lower
/// strategy index.
#[verifier::allow_in_spec]
pub fn outranks(left: RankedCandidate, right: RankedCandidate) -> bool
    returns
        (if left.admissible != right.admissible {
            left.admissible
        } else if left.score != right.score {
            left.score > right.score
        } else {
            left.strategy.index() < right.strategy.index()
        }),
{
    if left.admissible != right.admissible {
        left.admissible
    } else if left.score != right.score {
        left.score > right.score
    } else {
        left.strategy.index() < right.strategy.index()
    }
}

pub open spec fn ranked_in_order(ranked: Seq<RankedCandidate>) -> bool {
    forall|i: int, j: int|
        0 <= i < j < ranked.len() ==> outranks(#[trigger] ranked[i], #[trigger] ranked[j])
}

/// Whether a sequence ranks all candidates of a fingerprint.
pub open spec fn is_ranking(
    ranked: Seq<RankedCandidate>,
    model: ModelWeights,
    policy: OraclePolicy,
    fingerprint: GpuFingerprint,
) -> bool {
    &&& ranked.len() == STRATEGY_COUNT
    &&& ranked_in_order(ranked)
    &&& forall|strategy: DriverStrategy|
        ranked.contains(#[trigger] candidate_of(model, policy, fingerprint, strategy))
    &&& forall|i: int|
        0 <= i < ranked.len() ==> #[trigger] ranked[i] == candidate_of(
            model,
            policy,
            fingerprint,
            ranked[i].strategy,
        )
}

/// The entries from `from` to `to`, both included, with the last moved first.
pub open spec fn rotated(ranked: Seq<RankedCandidate>, from: int, to: int) -> Seq<
    RankedCandidate,
> {
    Seq::new(
        ranked.len(),
        |i: int|
            if i == from {
                ranked[to]
            } else if from < i <= to {
                ranked[i - 1]
            } else {
                ranked[i]
            },
    )
}

/// The first place from `from` on that holds a strategy.
pub open spec fn strategy_place(
    ranked: Seq<RankedCandidate>,
    strategy: DriverStrategy,
    from: int,
) -> int
    decreases ranked.len() - from,
{
    if from >= ranked.len() || ranked[from].strategy == strategy {
        from
    } else {
        strategy_place(ranked, strategy, from + 1)
    }
}

/// The ranking with a usable firmware framebuffer kept ahead of quarantine.
pub open spec fn fallbacks_ordered(
    ranked: Seq<RankedCandidate>,
    firmware_usable: bool,
) -> Seq<RankedCandidate> {
    let firmware = strategy_place(ranked, DriverStrategy::FirmwareFramebuffer, 0);
    let quarantine = strategy_place(ranked, DriverStrategy::Quarantine, 0);
    if firmware_usable && firmware < ranked.len() && quarantine < firmware
        && ranked[firmware].admissible && ranked[quarantine].admissible {
        rotated(ranked, quarantine, firmware)
    } else {
        ranked
    }
}

/// The strategy that is safe without confidence.
#[verifier::allow_in_spec]
pub fn safe_fallback(firmware_usable: bool) -> DriverStrategy
    returns
        (if firmware_usable {
            DriverStrategy::FirmwareFramebuffer
        } else {
            DriverStrategy::Quarantine
        }),
{
    if firmware_usable {
        DriverStrategy::FirmwareFramebuffer
    } else {
        DriverStrategy::Quarantine
    }
}

/// The ranking with the safe fallback moved to the front.
pub open spec fn fallback_promoted(
    ranked: Seq<RankedCandidate>,
    firmware_usable: bool,
) -> Seq<RankedCandidate> {
    let place = strategy_place(ranked, safe_fallback(firmware_usable), 0);
    if place < ranked.len() {
        rotated(ranked, 0, place)
    } else {
        ranked
    }
}

/// The scores of the admissible candidates below `upto`, in their order.
pub open spec fn admissible_scores(ranked: Seq<RankedCandidate>, upto: int) -> Seq<i64>
    decreases upto,
{
    if upto <= 0 {
        Seq::empty()
    } else {
        let earlier = admissible_scores(ranked, upto - 1);
        if ranked[upto - 1].admissible {
            earlier.push(ranked[upto - 1].score)
        } else {
            earlier
        }
    }
}

/// The score of the n-th admissible candidate, the lowest where there is none.
pub open spec fn admissible_score(ranked: Seq<RankedCandidate>, n: int) -> i64 {
    let scores = admissible_scores(ranked, ranked.len() as int);
    if n < scores.len() {
        scores[n]
    } else {
        i64::MIN
    }
}

/// The difference of two scores, clamped to what fits.
pub open spec fn clamped_difference(left: i64, right: i64) -> i64 {
    if left - right > i64::MAX {
        i64::MAX
    } else if left - right < i64::MIN {
        i64::MIN
    } else {
        (left - right) as i64
    }
}

pub open spec fn best_margin_of(ranked: Seq<RankedCandidate>) -> i64 {
    if admissible_score(ranked, 1) == i64::MIN {
        i64::MAX
    } else {
        clamped_difference(admissible_score(ranked, 0), admissible_score(ranked, 1))
    }
}

/// The candidates with their margin over the runner-up.
pub open spec fn margins_set(ranked: Seq<RankedCandidate>, runner_up: i64) -> Seq<
    RankedCandidate,
> {
    Seq::new(
        ranked.len(),
        |i: int|
            RankedCandidate {
                margin: if ranked[i].admissible {
                    clamped_difference(ranked[i].score, runner_up)
                } else {
                    i64::MIN
                },
                ..ranked[i]
            },
    )
}

/// The confidence that a margin earns, against the margin that a strategy
/// wants: full at eight times that margin, none without a lead.
#[verifier::opaque]
pub open spec fn confidence_of(model: ModelWeights, margin: i64, strategy: DriverStrategy) -> u16 {
    let wanted = model.minimum_margin[strategy.index() as int];
    let divisor = 8 * (if wanted < 1 {
        1int
    } else {
        wanted as int
    });
    if margin == i64::MAX {
        u16::MAX
    } else if margin <= 0 {
        0
    } else {
        let product = if margin * 65535 > i64::MAX {
            i64::MAX as int
        } else {
            margin * 65535
        };
        if product / divisor > 65535 {
            u16::MAX
        } else {
            (product / divisor) as u16
        }
    }
}

/// The reasons that the evidence alone gives.
#[verifier::opaque]
pub open spec fn base_reasons_of(fingerprint: GpuFingerprint, policy: OraclePolicy) -> u32 {
    (if fingerprint.topology_flags & TOPOLOGY_INVENTORY_OVERFLOW != 0 {
        REASON_INVENTORY_INCOMPLETE
    } else {
        0u32
    }) | (if fingerprint.topology_flags & TOPOLOGY_CONFIG_INCOMPLETE != 0 {
        REASON_CONFIG_INCOMPLETE
    } else {
        0u32
    }) | (if policy.require_iommu_for_native && !fingerprint.iommu_isolated() {
        REASON_IOMMU_ABSENT
    } else {
        0u32
    }) | (if fingerprint.topology_flags & TOPOLOGY_VIRTUAL_MACHINE != 0 || fingerprint.vendor_id
        == VENDOR_VIRTIO || fingerprint.vendor_id == VENDOR_VMWARE || fingerprint.vendor_id
        == VENDOR_REDHAT || fingerprint.vendor_id == VENDOR_BOCHS {
        REASON_VIRTUAL_DEVICE
    } else {
        0u32
    }) | (if fingerprint.topology_flags & TOPOLOGY_BOOT_DISPLAY != 0 {
        REASON_BOOT_DISPLAY
    } else {
        0u32
    }) | (if fingerprint.topology_flags & TOPOLOGY_HOTPLUG_PORT != 0 {
        REASON_NATIVE_GATED
    } else {
        0u32
    }) | (if fingerprint.topology_flags & TOPOLOGY_FIRMWARE_FRAMEBUFFER != 0 {
        REASON_FIRMWARE_PRESERVED
    } else {
        0u32
    })
}

fn reason_if(condition: bool, reason: u32) -> (bits: u32)
    ensures
        bits == (if condition {
            reason
        } else {
            0
        }),
{
    if condition {
        reason
    } else {
        0
    }
}

pub fn base_reasons(fingerprint: &GpuFingerprint, policy: OraclePolicy) -> (reasons: u32)
    ensures
        reasons == base_reasons_of(*fingerprint, policy),
{
    proof {
        reveal(base_reasons_of);
    }
    let virtual_vendor = fingerprint.vendor_id == VENDOR_VIRTIO || fingerprint.vendor_id
        == VENDOR_VMWARE || fingerprint.vendor_id == VENDOR_REDHAT || fingerprint.vendor_id
        == VENDOR_BOCHS;
    reason_if(
        fingerprint.topology_flags & TOPOLOGY_INVENTORY_OVERFLOW != 0,
        REASON_INVENTORY_INCOMPLETE,
    ) | reason_if(
        fingerprint.topology_flags & TOPOLOGY_CONFIG_INCOMPLETE != 0,
        REASON_CONFIG_INCOMPLETE,
    ) | reason_if(
        policy.require_iommu_for_native && !fingerprint.iommu_isolated(),
        REASON_IOMMU_ABSENT,
    ) | reason_if(
        fingerprint.topology_flags & TOPOLOGY_VIRTUAL_MACHINE != 0 || virtual_vendor,
        REASON_VIRTUAL_DEVICE,
    ) | reason_if(
        fingerprint.topology_flags & TOPOLOGY_BOOT_DISPLAY != 0,
        REASON_BOOT_DISPLAY,
    ) | reason_if(
        fingerprint.topology_flags & TOPOLOGY_HOTPLUG_PORT != 0,
        REASON_NATIVE_GATED,
    ) | reason_if(
        fingerprint.topology_flags & TOPOLOGY_FIRMWARE_FRAMEBUFFER != 0,
        REASON_FIRMWARE_PRESERVED,
    )
}

pub fn confidence_from_margin(
    model: &ModelWeights,
    margin: i64,
    strategy: DriverStrategy,
) -> (confidence: u16)
    ensures
        confidence == confidence_of(*model, margin, strategy),
{
    proof {
        reveal(confidence_of);
    }
    if margin == i64::MAX {
        return u16::MAX;
    }
    if margin <= 0 {
        return 0;
    }
    let wanted: i32 = model.minimum_margin[strategy.index()];
    let divisor: i64 = if wanted < 1 {
        8
    } else {
        wanted as i64 * 8
    };
    let product: i64 = if margin > i64::MAX / 65535 {
        i64::MAX
    } else {
        margin * 65535
    };
    let scaled: i64 = product / divisor;
    if scaled > 65535 {
        u16::MAX
    } else {
        scaled as u16
    }
}

fn difference(left: i64, right: i64) -> (result: i64)
    ensures
        result == clamped_difference(left, right),
{
    let wide: i128 = left as i128 - right as i128;
    if wide > i64::MAX as i128 {
        i64::MAX
    } else if wide < i64::MIN as i128 {
        i64::MIN
    } else {
        wide as i64
    }
}

fn score_candidate(
    model: &ModelWeights,
    policy: OraclePolicy,
    fingerprint: &GpuFingerprint,
    features: &FeatureVector,
    strategy: DriverStrategy,
) -> (candidate: RankedCandidate)
    requires
        features.values@ == features_of(*model, *fingerprint),
        features.known_mask == known_features(*fingerprint),
    ensures
        candidate == candidate_of(*model, policy, *fingerprint, strategy),
{
    let score: i64 = score_strategy(model, strategy, features);
    let gate = gate_strategy(strategy, fingerprint, policy);
    RankedCandidate { strategy, score, margin: 0, admissible: gate.0, gate_reason: gate.1 }
}

/// Whether a sequence ranks the candidates of the strategies below `upto`.
spec fn ranks_below(
    ranked: Seq<RankedCandidate>,
    model: ModelWeights,
    policy: OraclePolicy,
    fingerprint: GpuFingerprint,
    upto: int,
) -> bool {
    &&& ranked.len() == upto
    &&& ranked_in_order(ranked)
    &&& forall|strategy: DriverStrategy|
        strategy.index() < upto ==> ranked.contains(
            #[trigger] candidate_of(model, policy, fingerprint, strategy),
        )
    &&& forall|i: int|
        0 <= i < ranked.len() ==> (#[trigger] ranked[i]).strategy.index() < upto && ranked[i]
            == candidate_of(model, policy, fingerprint, ranked[i].strategy)
}

#[verifier::rlimit(30)]
fn insert_ranked(
    ranked: &mut Vec<RankedCandidate>,
    candidate: RankedCandidate,
    model: Ghost<ModelWeights>,
    policy: Ghost<OraclePolicy>,
    fingerprint: Ghost<GpuFingerprint>,
)
    requires
        old(ranked)@.len() < STRATEGY_COUNT,
        candidate == candidate_of(model@, policy@, fingerprint@, candidate.strategy),
        candidate.strategy.index() == old(ranked)@.len(),
        ranks_below(old(ranked)@, model@, policy@, fingerprint@, old(ranked)@.len() as int),
    ensures
        ranks_below(final(ranked)@, model@, policy@, fingerprint@, old(ranked)@.len() as int + 1),
{
    let ghost before = ranked@;
    let mut place: usize = ranked.len();
    while place > 0 && outranks(candidate, ranked[place - 1])
        invariant
            place <= ranked@.len(),
            ranked@ == before,
            forall|i: int| place <= i < ranked@.len() ==> outranks(
                candidate,
                #[trigger] ranked@[i],
            ),
        decreases place,
    {
        place -= 1;
    }
    ranked.insert(place, candidate);
    proof {
        let grown = ranked@;
        assert(grown =~= before.insert(place as int, candidate));
        assert forall|i: int, j: int| 0 <= i < j < grown.len() implies outranks(
            #[trigger] grown[i],
            #[trigger] grown[j],
        ) by {
            let a = if i < place {
                i
            } else {
                i - 1
            };
            let b = if j < place {
                j
            } else {
                j - 1
            };
            if i == place {
                assert(grown[j] == before[b]);
            } else if j == place {
                assert(grown[i] == before[a]);
                assert(before[place - 1].strategy.index() < before.len());
                assert(!outranks(candidate, before[place - 1]));
                assert(outranks(before[place - 1], candidate));
                if a < place - 1 {
                    assert(outranks(before[a], before[place - 1]));
                }
            } else {
                assert(grown[i] == before[a] && grown[j] == before[b]);
            }
        }
        assert forall|strategy: DriverStrategy| strategy.index() < before.len() + 1 implies grown.contains(
            #[trigger] candidate_of(model@, policy@, fingerprint@, strategy),
        ) by {
            let wanted = candidate_of(model@, policy@, fingerprint@, strategy);
            if strategy.index() == before.len() {
                assert(strategy == candidate.strategy);
                assert(grown[place as int] == wanted);
            } else {
                let k = choose|k: int| 0 <= k < before.len() && before[k] == wanted;
                if k < place {
                    assert(grown[k] == wanted);
                } else {
                    assert(grown[k + 1] == wanted);
                }
            }
        }
        assert forall|i: int| 0 <= i < grown.len() implies (#[trigger] grown[i]).strategy.index()
            < before.len() + 1 && grown[i] == candidate_of(
            model@,
            policy@,
            fingerprint@,
            grown[i].strategy,
        ) by {
            if i < place {
                assert(grown[i] == before[i]);
            } else if i > place {
                assert(grown[i] == before[i - 1]);
            }
        }
    }
}

fn rank_candidates(
    model: &ModelWeights,
    policy: OraclePolicy,
    fingerprint: &GpuFingerprint,
    features: &FeatureVector,
) -> (ranked: Vec<RankedCandidate>)
    requires
        features.values@ == features_of(*model, *fingerprint),
        features.known_mask == known_features(*fingerprint),
    ensures
        is_ranking(ranked@, *model, policy, *fingerprint),
{
    let mut ranked: Vec<RankedCandidate> = Vec::new();
    let mut index: usize = 0;
    while index < STRATEGY_COUNT
        invariant
            index <= STRATEGY_COUNT,
            features.values@ == features_of(*model, *fingerprint),
            features.known_mask == known_features(*fingerprint),
            ranks_below(ranked@, *model, policy, *fingerprint, index as int),
        decreases STRATEGY_COUNT - index,
    {
        let strategy = DriverStrategy::from_index(index);
        let candidate = score_candidate(model, policy, fingerprint, features, strategy);
        insert_ranked(
            &mut ranked,
            candidate,
            Ghost(*model),
            Ghost(policy),
            Ghost(*fingerprint),
        );
        index += 1;
    }
    ranked
}

fn find_strategy(ranked: &Vec<RankedCandidate>, strategy: DriverStrategy) -> (place: usize)
    ensures
        place == strategy_place(ranked@, strategy, 0),
        place <= ranked@.len(),
{
    let mut index: usize = 0;
    while index < ranked.len() && ranked[index].strategy != strategy
        invariant
            index <= ranked@.len(),
            strategy_place(ranked@, strategy, 0) == strategy_place(
                ranked@,
                strategy,
                index as int,
            ),
        decreases ranked@.len() - index,
    {
        index += 1;
    }
    index
}

fn rotate(ranked: &mut Vec<RankedCandidate>, from: usize, to: usize)
    requires
        from <= to < old(ranked)@.len(),
    ensures
        final(ranked)@ == rotated(old(ranked)@, from as int, to as int),
{
    let last = ranked.remove(to);
    ranked.insert(from, last);
}

pub fn order_terminal_fallbacks(ranked: &mut Vec<RankedCandidate>, firmware_usable: bool)
    ensures
        final(ranked)@ == fallbacks_ordered(old(ranked)@, firmware_usable),
{
    if !firmware_usable {
        return;
    }
    let firmware: usize = find_strategy(ranked, DriverStrategy::FirmwareFramebuffer);
    let quarantine: usize = find_strategy(ranked, DriverStrategy::Quarantine);
    if firmware < ranked.len() && quarantine < firmware && ranked[firmware].admissible
        && ranked[quarantine].admissible {
        rotate(ranked, quarantine, firmware);
    }
}

pub fn promote_safe_fallback(ranked: &mut Vec<RankedCandidate>, firmware_usable: bool)
    ensures
        final(ranked)@ == fallback_promoted(old(ranked)@, firmware_usable),
{
    let place: usize = find_strategy(ranked, safe_fallback(firmware_usable));
    if place < ranked.len() {
        rotate(ranked, 0, place);
    }
}

/// The scores of the first two admissible candidates.
fn leading_scores(ranked: &Vec<RankedCandidate>) -> (scores: (i64, i64))
    ensures
        scores.0 == admissible_score(ranked@, 0),
        scores.1 == admissible_score(ranked@, 1),
{
    let mut seen: usize = 0;
    let mut best: i64 = i64::MIN;
    let mut second: i64 = i64::MIN;
    let mut index: usize = 0;
    while index < ranked.len()
        invariant
            index <= ranked@.len(),
            seen <= index,
            seen == admissible_scores(ranked@, index as int).len(),
            best == (if seen > 0 {
                admissible_scores(ranked@, index as int)[0]
            } else {
                i64::MIN
            }),
            second == (if seen > 1 {
                admissible_scores(ranked@, index as int)[1]
            } else {
                i64::MIN
            }),
        decreases ranked@.len() - index,
    {
        if ranked[index].admissible {
            if seen == 0 {
                best = ranked[index].score;
            } else if seen == 1 {
                second = ranked[index].score;
            }
            seen += 1;
        }
        index += 1;
    }
    (best, second)
}

fn set_margins(ranked: &mut Vec<RankedCandidate>, runner_up: i64)
    ensures
        final(ranked)@ == margins_set(old(ranked)@, runner_up),
{
    let ghost before = ranked@;
    let mut index: usize = 0;
    while index < ranked.len()
        invariant
            index <= ranked@.len(),
            ranked@.len() == before.len(),
            forall|i: int|
                0 <= i < ranked@.len() ==> #[trigger] ranked@[i] == (if i < index {
                    margins_set(before, runner_up)[i]
                } else {
                    before[i]
                }),
        decreases ranked@.len() - index,
    {
        let candidate = ranked[index];
        let margin: i64 = if candidate.admissible {
            difference(candidate.score, runner_up)
        } else {
            i64::MIN
        };
        ranked.set(index, RankedCandidate { margin, ..candidate });
        index += 1;
    }
    assert(ranked@ =~= margins_set(before, runner_up));
}

#[derive(Clone, Copy, Debug, PartialEq, Eq)]
pub struct OracleDecision {
    pub fingerprint_root: u64,
    pub feature_root: u64,
    pub model_schema: u32,
    pub model_corpus_root: u64,
    pub model_root: u64,
    pub ranked: [RankedCandidate; MAXIMUM_RANKED_CANDIDATES],
    pub length: usize,
    pub best_margin: i64,
    pub confidence_q16: u16,
    pub reasons: u32,
    pub decision_root: u64,
}

/// The words that a decision root seals for the first `upto` candidates.
pub open spec fn decision_words(decision: OracleDecision, upto: int) -> Seq<u64>
    decreases upto,
{
    if upto <= 0 {
        seq![
            decision.fingerprint_root,
            decision.feature_root,
            decision.model_schema as u64,
            decision.model_corpus_root,
            decision.model_root,
            decision.best_margin as u64,
            decision.confidence_q16 as u64,
            decision.reasons as u64,
            decision.length as u64,
        ]
    } else {
        let candidate = decision.ranked[upto - 1];
        decision_words(decision, upto - 1).push(candidate.strategy.index() as u64).push(
            candidate.score as u64,
        ).push(candidate.margin as u64).push(crate::seal::flag_word(candidate.admissible)).push(
            candidate.gate_reason as u64,
        )
    }
}

pub open spec fn decision_root_of(secret: u64, decision: OracleDecision) -> u64 {
    crate::seal::seal_of(secret, decision_words(decision, decision.length as int))
}

pub fn decision_root(secret: u64, decision: &OracleDecision) -> (root: u64)
    requires
        decision.length <= MAXIMUM_RANKED_CANDIDATES,
    ensures
        root == decision_root_of(secret, *decision),
{
    let mut sealer = Sealer::new(secret).word(decision.fingerprint_root).word(
        decision.feature_root,
    ).word(decision.model_schema as u64).word(decision.model_corpus_root).word(
        decision.model_root,
    ).word(decision.best_margin as u64).word(decision.confidence_q16 as u64).word(
        decision.reasons as u64,
    ).word(decision.length as u64);
    let mut index: usize = 0;
    while index < decision.length
        invariant
            index <= decision.length <= MAXIMUM_RANKED_CANDIDATES,
            sealer.seed() == secret,
            sealer.words() == decision_words(*decision, index as int),
        decreases decision.length - index,
    {
        let candidate = decision.ranked[index];
        sealer = sealer.word(candidate.strategy.index() as u64).word(
            candidate.score as u64,
        ).word(candidate.margin as u64).word(flag(candidate.admissible)).word(
            candidate.gate_reason as u64,
        );
        index += 1;
    }
    sealer.root()
}

impl OracleDecision {
    pub fn candidates(&self) -> (candidates: &[RankedCandidate])
        requires
            self.length <= MAXIMUM_RANKED_CANDIDATES,
        ensures
            candidates@ == self.ranked@.take(self.length as int),
    {
        vstd::slice::slice_subrange(
            vstd::array::array_as_slice(&self.ranked),
            0,
            self.length,
        )
    }

    /// Whether a decision is sealed under a secret and a model.
    pub open spec fn verified(self, secret: u64, model: ModelExpectation) -> bool {
        &&& self.length <= MAXIMUM_RANKED_CANDIDATES
        &&& self.model_schema == model.schema
        &&& self.model_corpus_root == model.corpus_root
        &&& self.model_root == model.model_root
        &&& self.decision_root == decision_root_of(secret, self)
    }

    pub fn verify(&self, secret: u64, model: ModelExpectation) -> (verified: bool)
        ensures
            verified == self.verified(secret, model),
    {
        self.length <= MAXIMUM_RANKED_CANDIDATES && self.model_schema == model.schema
            && self.model_corpus_root == model.corpus_root && self.model_root == model.model_root
            && self.decision_root == decision_root(secret, self)
    }
}

/// What a ranking decides about a fingerprint.
pub open spec fn concludes(
    decision: OracleDecision,
    sorted: Seq<RankedCandidate>,
    model: ModelWeights,
    policy: OraclePolicy,
    secret: u64,
    fingerprint: GpuFingerprint,
) -> bool {
    let usable = fingerprint.firmware_display_usable();
    let ordered = fallbacks_ordered(sorted, usable);
    let margin = best_margin_of(ordered);
    let weighed = margins_set(ordered, admissible_score(ordered, 1));
    let confidence = confidence_of(model, margin, ordered[0].strategy);
    let low = confidence < policy.minimum_confidence_q16;
    &&& decision.ranked@ == (if low {
        fallback_promoted(weighed, usable)
    } else {
        weighed
    })
    &&& decision.length == MAXIMUM_RANKED_CANDIDATES
    &&& decision.best_margin == margin
    &&& decision.confidence_q16 == confidence
    &&& decision.reasons == base_reasons_of(fingerprint, policy) | (if low {
        REASON_LOW_MARGIN
    } else {
        0u32
    }) | (if policy.preserve_boot_framebuffer && fingerprint.boot_display() && usable {
        REASON_FIRMWARE_PRESERVED | REASON_BOOT_DISPLAY
    } else {
        0u32
    })
    &&& decision.fingerprint_root == fingerprint.evidence_root
    &&& decision.feature_root == crate::seal::seal_of(
        fingerprint.evidence_root,
        feature_words(known_features(fingerprint), features_of(model, fingerprint)),
    )
    &&& decision.verified(secret, ModelExpectation::compiled(&model))
}

/// Whether a decision is the one that a model and a policy reach about a
/// fingerprint, sealed under a secret.
pub open spec fn decides(
    decision: OracleDecision,
    model: ModelWeights,
    policy: OraclePolicy,
    secret: u64,
    fingerprint: GpuFingerprint,
) -> bool {
    exists|sorted: Seq<RankedCandidate>|
        is_ranking(sorted, model, policy, fingerprint) && #[trigger] concludes(
            decision,
            sorted,
            model,
            policy,
            secret,
            fingerprint,
        )
}

pub struct CompatibilityOracle {
    pub secret: u64,
    pub policy: OraclePolicy,
    pub model: ModelWeights,
}

impl CompatibilityOracle {
    pub fn new(secret: u64, policy: OraclePolicy, model: ModelWeights) -> (result: Result<
        Self,
        OracleError,
    >)
        ensures
            match result {
                Ok(oracle) => secret != 0 && oracle == (CompatibilityOracle {
                    secret,
                    policy,
                    model,
                }),
                Err(error) => secret == 0 && error == OracleError::InvalidSecret,
            },
    {
        let expectation = ModelExpectation::compiled(&model);
        Self::new_with_expectation(secret, policy, expectation, model)
    }

    pub fn new_with_expectation(
        secret: u64,
        policy: OraclePolicy,
        expectation: ModelExpectation,
        model: ModelWeights,
    ) -> (result: Result<Self, OracleError>)
        ensures
            match result {
                Ok(oracle) => {
                    &&& secret != 0
                    &&& expectation.matches_compiled(&model)
                    &&& oracle == (CompatibilityOracle { secret, policy, model })
                },
                Err(error) => if secret == 0 {
                    error == OracleError::InvalidSecret
                } else {
                    !expectation.matches_compiled(&model) && error == OracleError::ModelAuthority
                },
            },
    {
        if secret == 0 {
            return Err(OracleError::InvalidSecret);
        }
        if !expectation.matches_compiled(&model) {
            return Err(OracleError::ModelAuthority);
        }
        Ok(CompatibilityOracle { secret, policy, model })
    }

    #[verifier::allow_in_spec]
    pub fn policy(&self) -> OraclePolicy
        returns
            self.policy,
    {
        self.policy
    }

    pub fn classify(&self, fingerprint: &GpuFingerprint) -> (result: Result<
        OracleDecision,
        OracleError,
    >)
        ensures
            if fingerprint.evidence_root == 0 {
                result == Err::<OracleDecision, _>(OracleError::InvalidFingerprint)
            } else {
                result matches Ok(decision) && decides(
                    decision,
                    self.model,
                    self.policy,
                    self.secret,
                    *fingerprint,
                )
            },
    {
        if fingerprint.evidence_root == 0 {
            return Err(OracleError::InvalidFingerprint);
        }
        let features = encode_features(&self.model, fingerprint);
        let ranked = rank_candidates(&self.model, self.policy, fingerprint, &features);
        let ghost sorted = ranked@;
        let decision = self.conclude(fingerprint, &features, ranked);
        assert(concludes(
            decision,
            sorted,
            self.model,
            self.policy,
            self.secret,
            *fingerprint,
        ));
        Ok(decision)
    }

    fn conclude(
        &self,
        fingerprint: &GpuFingerprint,
        features: &FeatureVector,
        candidates: Vec<RankedCandidate>,
    ) -> (decision: OracleDecision)
        requires
            candidates@.len() == STRATEGY_COUNT,
            features.values@ == features_of(self.model, *fingerprint),
            features.known_mask == known_features(*fingerprint),
            features.root == crate::seal::seal_of(
                fingerprint.evidence_root,
                feature_words(features.known_mask, features.values@),
            ),
        ensures
            concludes(
                decision,
                candidates@,
                self.model,
                self.policy,
                self.secret,
                *fingerprint,
            ),
    {
        let usable = fingerprint.firmware_display_usable();
        let mut ranked = candidates;
        let ghost sorted = ranked@;
        order_terminal_fallbacks(&mut ranked, usable);
        let ghost ordered = ranked@;
        assert(ordered.len() == STRATEGY_COUNT);
        let scores = leading_scores(&ranked);
        let best_margin: i64 = if scores.1 == i64::MIN {
            i64::MAX
        } else {
            difference(scores.0, scores.1)
        };
        set_margins(&mut ranked, scores.1);
        let confidence_q16: u16 = confidence_from_margin(
            &self.model,
            best_margin,
            ranked[0].strategy,
        );
        let low = confidence_q16 < self.policy.minimum_confidence_q16;
        if low {
            promote_safe_fallback(&mut ranked, usable);
        }
        let preserved = self.policy.preserve_boot_framebuffer && fingerprint.boot_display()
            && usable;
        let reasons: u32 = base_reasons(fingerprint, self.policy) | reason_if(
            low,
            REASON_LOW_MARGIN,
        ) | reason_if(preserved, REASON_FIRMWARE_PRESERVED | REASON_BOOT_DISPLAY);
        assert(ranked@.len() == MAXIMUM_RANKED_CANDIDATES);
        let listed = [
            ranked[0],
            ranked[1],
            ranked[2],
            ranked[3],
            ranked[4],
            ranked[5],
            ranked[6],
        ];
        assert(listed@ =~= ranked@);
        let mut decision = OracleDecision {
            fingerprint_root: fingerprint.evidence_root,
            feature_root: features.root,
            model_schema: self.model.schema,
            model_corpus_root: self.model.corpus_root,
            model_root: self.model.model_root,
            ranked: listed,
            length: MAXIMUM_RANKED_CANDIDATES,
            best_margin,
            confidence_q16,
            reasons,
            decision_root: 0,
        };
        let ghost unsealed = decision;
        decision.decision_root = decision_root(self.secret, &decision);
        proof {
            lemma_decision_words_ignore_root(
                unsealed,
                decision.decision_root,
                MAXIMUM_RANKED_CANDIDATES as int,
            );
            assert(concludes(
                decision,
                sorted,
                self.model,
                self.policy,
                self.secret,
                *fingerprint,
            ));
        }
        decision
    }
}

proof fn lemma_decision_words_ignore_root(decision: OracleDecision, root: u64, upto: int)
    ensures
        decision_words(OracleDecision { decision_root: root, ..decision }, upto)
            == decision_words(decision, upto),
    decreases upto,
{
    if upto > 0 {
        lemma_decision_words_ignore_root(decision, root, upto - 1);
    }
}

proof fn lemma_strategy_place(ranked: Seq<RankedCandidate>, strategy: DriverStrategy, from: int)
    requires
        0 <= from <= ranked.len(),
    ensures
        ({
            let place = strategy_place(ranked, strategy, from);
            &&& from <= place <= ranked.len()
            &&& place < ranked.len() ==> ranked[place].strategy == strategy
            &&& forall|i: int| from <= i < place ==> (#[trigger] ranked[i]).strategy != strategy
        }),
    decreases ranked.len() - from,
{
    if from < ranked.len() && ranked[from].strategy != strategy {
        lemma_strategy_place(ranked, strategy, from + 1);
    }
}

/// No native strategy of another vendor is ever admissible.
pub proof fn law_no_native_strategy_crosses_vendors(
    fingerprint: GpuFingerprint,
    policy: OraclePolicy,
)
    ensures
        fingerprint.vendor_id != VENDOR_NVIDIA ==> !gate_of(
            DriverStrategy::HermesNvidia,
            fingerprint,
            policy,
        ).0,
        fingerprint.vendor_id != VENDOR_AMD ==> !gate_of(
            DriverStrategy::AmdDisplay,
            fingerprint,
            policy,
        ).0,
        fingerprint.vendor_id != VENDOR_INTEL ==> !gate_of(
            DriverStrategy::IntelDisplay,
            fingerprint,
            policy,
        ).0,
        fingerprint.vendor_id != VENDOR_VIRTIO ==> !gate_of(
            DriverStrategy::VirtioGpu,
            fingerprint,
            policy,
        ).0,
{
}

/// Under a policy that wants isolation, a function without it gets no native
/// strategy.
pub proof fn law_native_strategies_need_isolation(
    fingerprint: GpuFingerprint,
    policy: OraclePolicy,
    strategy: DriverStrategy,
)
    requires
        policy.require_iommu_for_native,
        !fingerprint.iommu_isolated(),
        strategy.native(),
    ensures
        !gate_of(strategy, fingerprint, policy).0,
{
}

/// A usable firmware framebuffer and quarantine are admissible whatever else
/// was found.
pub proof fn law_fallbacks_are_always_admissible(
    fingerprint: GpuFingerprint,
    policy: OraclePolicy,
)
    ensures
        gate_of(DriverStrategy::Quarantine, fingerprint, policy) == (true, 0u32),
        fingerprint.firmware_display_usable() ==> gate_of(
            DriverStrategy::FirmwareFramebuffer,
            fingerprint,
            policy,
        ) == (true, 0u32),
{
}

/// A decision leads with an admissible strategy.
pub proof fn law_a_decision_leads_with_an_admissible_strategy(
    decision: OracleDecision,
    model: ModelWeights,
    policy: OraclePolicy,
    secret: u64,
    fingerprint: GpuFingerprint,
)
    requires
        decides(decision, model, policy, secret, fingerprint),
    ensures
        decision.ranked[0].admissible,
{
    let sorted = choose|sorted: Seq<RankedCandidate>|
        is_ranking(sorted, model, policy, fingerprint) && #[trigger] concludes(
            decision,
            sorted,
            model,
            policy,
            secret,
            fingerprint,
        );
    let usable = fingerprint.firmware_display_usable();
    let ordered = fallbacks_ordered(sorted, usable);
    let weighed = margins_set(ordered, admissible_score(ordered, 1));
    lemma_leading_is_admissible(sorted, model, policy, fingerprint);
    lemma_strategy_place(sorted, DriverStrategy::FirmwareFramebuffer, 0);
    lemma_strategy_place(sorted, DriverStrategy::Quarantine, 0);
    lemma_strategy_place(weighed, safe_fallback(usable), 0);
    let place = strategy_place(weighed, safe_fallback(usable), 0);
    if place < weighed.len() {
        let at = choose|i: int|
            0 <= i < sorted.len() && (#[trigger] sorted[i]).strategy == ordered[place].strategy
                && sorted[i] == ordered[place];
        assert(exists|i: int|
            0 <= i < sorted.len() && (#[trigger] sorted[i]).strategy == ordered[place].strategy
                && sorted[i] == ordered[place]) by {
            let firmware = strategy_place(sorted, DriverStrategy::FirmwareFramebuffer, 0);
            let quarantine = strategy_place(sorted, DriverStrategy::Quarantine, 0);
            if ordered == sorted {
                assert(sorted[place] == ordered[place]);
            } else if place == quarantine {
                assert(sorted[firmware] == ordered[place]);
            } else if quarantine < place <= firmware {
                assert(sorted[place - 1] == ordered[place]);
            } else {
                assert(sorted[place] == ordered[place]);
            }
        }
        assert(sorted[at] == candidate_of(model, policy, fingerprint, sorted[at].strategy));
    }
}

proof fn lemma_leading_is_admissible(
    sorted: Seq<RankedCandidate>,
    model: ModelWeights,
    policy: OraclePolicy,
    fingerprint: GpuFingerprint,
)
    requires
        is_ranking(sorted, model, policy, fingerprint),
    ensures
        sorted[0].admissible,
{
    let quarantine = candidate_of(model, policy, fingerprint, DriverStrategy::Quarantine);
    assert(sorted.contains(quarantine));
    let k = choose|k: int| 0 <= k < sorted.len() && sorted[k] == quarantine;
    if k > 0 {
        assert(outranks(sorted[0], sorted[k]));
    }
}

/// With a usable firmware framebuffer and no admissible native strategy, the
/// framebuffer leads the decision, whatever the model weighs.
pub proof fn law_firmware_leads_without_a_native_strategy(
    decision: OracleDecision,
    model: ModelWeights,
    policy: OraclePolicy,
    secret: u64,
    fingerprint: GpuFingerprint,
)
    requires
        decides(decision, model, policy, secret, fingerprint),
        fingerprint.firmware_display_usable(),
        forall|strategy: DriverStrategy|
            strategy.native() ==> !(#[trigger] gate_of(strategy, fingerprint, policy)).0,
    ensures
        decision.ranked[0].strategy == DriverStrategy::FirmwareFramebuffer,
{
    let sorted = choose|sorted: Seq<RankedCandidate>|
        is_ranking(sorted, model, policy, fingerprint) && #[trigger] concludes(
            decision,
            sorted,
            model,
            policy,
            secret,
            fingerprint,
        );
    lemma_leading_is_admissible(sorted, model, policy, fingerprint);
    let ordered = fallbacks_ordered(sorted, true);
    let weighed = margins_set(ordered, admissible_score(ordered, 1));
    let first = candidate_of(model, policy, fingerprint, DriverStrategy::FirmwareFramebuffer);
    let second = candidate_of(model, policy, fingerprint, DriverStrategy::Quarantine);
    assert(sorted.contains(first) && sorted.contains(second));
    let f = choose|k: int| 0 <= k < sorted.len() && sorted[k] == first;
    let q = choose|k: int| 0 <= k < sorted.len() && sorted[k] == second;
    lemma_strategy_place(sorted, DriverStrategy::FirmwareFramebuffer, 0);
    lemma_strategy_place(sorted, DriverStrategy::Quarantine, 0);
    assert(sorted[0] == candidate_of(model, policy, fingerprint, sorted[0].strategy));
    assert(gate_of(sorted[0].strategy, fingerprint, policy).0);
    assert(ordered[0].strategy == DriverStrategy::FirmwareFramebuffer);
    lemma_strategy_place(weighed, DriverStrategy::FirmwareFramebuffer, 0);
    assert(weighed[0].strategy == DriverStrategy::FirmwareFramebuffer);
}

/// A ranking is one order only: two rankings of the same candidates agree.
pub proof fn law_a_ranking_is_unique(
    left: Seq<RankedCandidate>,
    right: Seq<RankedCandidate>,
    model: ModelWeights,
    policy: OraclePolicy,
    fingerprint: GpuFingerprint,
)
    requires
        is_ranking(left, model, policy, fingerprint),
        is_ranking(right, model, policy, fingerprint),
    ensures
        left == right,
{
    lemma_rankings_agree(left, right, model, policy, fingerprint, left.len() as int);
    assert(left =~= right);
}

proof fn lemma_rankings_agree(
    left: Seq<RankedCandidate>,
    right: Seq<RankedCandidate>,
    model: ModelWeights,
    policy: OraclePolicy,
    fingerprint: GpuFingerprint,
    upto: int,
)
    requires
        is_ranking(left, model, policy, fingerprint),
        is_ranking(right, model, policy, fingerprint),
        0 <= upto <= left.len(),
    ensures
        forall|i: int| 0 <= i < upto ==> left[i] == right[i],
    decreases upto,
{
    if upto > 0 {
        let at = upto - 1;
        lemma_rankings_agree(left, right, model, policy, fingerprint, at);
        assert(left[at] == candidate_of(model, policy, fingerprint, left[at].strategy));
        assert(right[at] == candidate_of(model, policy, fingerprint, right[at].strategy));
        assert(right.contains(candidate_of(model, policy, fingerprint, left[at].strategy)));
        assert(left.contains(candidate_of(model, policy, fingerprint, right[at].strategy)));
        let r = choose|k: int| 0 <= k < right.len() && right[k] == left[at];
        let l = choose|k: int| 0 <= k < left.len() && left[k] == right[at];
        if r < at {
            assert(outranks(left[r], left[at]));
        }
        if l < at {
            assert(outranks(right[l], right[at]));
        }
        if r > at && l > at {
            assert(outranks(right[at], right[r]));
            assert(outranks(left[at], left[l]));
        }
    }
}

} // verus!
