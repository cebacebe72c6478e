//! Laws of the device census.

use vstd::prelude::*;

use crate::device_census::BindingClaim;
use crate::device_census::CensusError;
use crate::device_census::DeviceFamily;
use crate::device_census::DeviceState;
use crate::device_census::DriverBindingManifest;
use crate::device_census::PciFunctionEvidence;
use crate::device_census::RetainedDeviceRecord;
use crate::device_census::AUTHORITY_CLOCK;
use crate::device_census::AUTHORITY_DELEGATE;
use crate::device_census::AUTHORITY_DMA;
use crate::device_census::AUTHORITY_IRQ;
use crate::device_census::AUTHORITY_MMIO;
use crate::device_census::AUTHORITY_PCI_CONFIG;
use crate::device_census::AUTHORITY_PUBLISH;
use crate::device_census::EVIDENCE_CLASS_TUPLE;
use crate::device_census::EVIDENCE_DMAR_COVERAGE;
use crate::device_census::EVIDENCE_IDENTITY;
use crate::device_census::EVIDENCE_LEGACY_IRQ;
use crate::device_census::EVIDENCE_PCI_CONFIGURATION;
use crate::pci::PciDevice;

verus! {

proof fn lemma_census_bits(
    wanted: u32,
    had: u32,
    asked: u64,
    given: u64,
    id: u16,
    value: u16,
    mask: u16,
    code: u8,
    part: u8,
    over: u8,
    pin: bool,
    covered: bool,
)
    by (bit_vector)
    ensures
        wanted & !had == 0 <==> wanted & had == wanted,
        (wanted & !had) & had == 0 && (wanted & !had) & wanted == wanted & !had,
        asked & !given == 0 <==> asked & given == asked,
        (asked & !given) & given == 0 && (asked & !given) & asked == asked & !given,
        id & mask == value & mask <==> (id ^ value) & mask == 0,
        part & !over == 0 ==> (code & over == part <==> (code ^ part) & over == 0),
        AUTHORITY_DELEGATE | AUTHORITY_MMIO | AUTHORITY_IRQ | AUTHORITY_CLOCK | AUTHORITY_PCI_CONFIG
            == 0x5b,
        AUTHORITY_DELEGATE | AUTHORITY_MMIO | AUTHORITY_DMA | AUTHORITY_IRQ | AUTHORITY_CLOCK
            | AUTHORITY_PUBLISH | AUTHORITY_PCI_CONFIG == 0x7f,
        AUTHORITY_DELEGATE == 1 && AUTHORITY_DMA == 4 && AUTHORITY_PUBLISH == 32,
        0x5bu64 & 4 == 0 && 0x5bu64 & 32 == 0,
        (EVIDENCE_IDENTITY | EVIDENCE_CLASS_TUPLE) == 3 && EVIDENCE_DMAR_COVERAGE == 8
            && EVIDENCE_PCI_CONFIGURATION == 16,
        had & 3 == 3 <==> had % 4 == 3,
        had & 8 != 0 <==> had / 8 % 2 == 1,
        had & 16 != 0 <==> had / 16 % 2 == 1,
        (EVIDENCE_IDENTITY | EVIDENCE_CLASS_TUPLE | EVIDENCE_PCI_CONFIGURATION) | (if pin {
            EVIDENCE_LEGACY_IRQ
        } else {
            0u32
        }) | (if covered {
            EVIDENCE_DMAR_COVERAGE
        } else {
            0u32
        }) == (if pin {
            if covered {
                31u32
            } else {
                23u32
            }
        } else {
            if covered {
                27u32
            } else {
                19u32
            }
        }),
{
}

/// The family of a function follows from its class: display 3, network 2,
/// wireless 13 and input 9 whole, and of multimedia 4 and serial bus 12 the
/// subclasses of audio, video and USB.
pub proof fn law_families_follow_the_class(class_code: u8, subclass: u8)
    ensures
        crate::device_census::family_of(
            class_code,
            subclass,
        ) is DisplayAdapter <==> class_code == 3,
        crate::device_census::family_of(class_code, subclass) is NetworkController <==> class_code
            == 2,
        crate::device_census::family_of(class_code, subclass) is WirelessController <==> class_code
            == 13,
        crate::device_census::family_of(class_code, subclass) is InputController <==> class_code
            == 9,
        crate::device_census::family_of(class_code, subclass) is AudioController <==> class_code
            == 4 && (subclass == 1 || subclass == 3),
        crate::device_census::family_of(class_code, subclass) is MultimediaVideoController <==>
            class_code == 4 && subclass == 0,
        crate::device_census::family_of(class_code, subclass) is UsbHostController <==> class_code
            == 12 && subclass == 3,
{
}

/// Families and states are numbered from one in a fixed order.
pub proof fn law_families_and_states_are_numbered()
    ensures
        1 == DeviceFamily::DisplayAdapter.code(),
        DeviceFamily::DisplayAdapter.code() < DeviceFamily::AudioController.code()
            < DeviceFamily::MultimediaVideoController.code()
            < DeviceFamily::NetworkController.code() < DeviceFamily::WirelessController.code()
            < DeviceFamily::UsbHostController.code() < DeviceFamily::InputController.code()
            < DeviceFamily::Other.code(),
        DeviceFamily::Other.code() == 8,
        1 == DeviceState::Detected.code(),
        DeviceState::Detected.code() < DeviceState::Claimed.code()
            < DeviceState::Operational.code() < DeviceState::Quarantined.code()
            < DeviceState::Deferred.code(),
        DeviceState::Deferred.code() == 5,
{
}

/// An input controller can never be given memory access of its own nor publish,
/// a function of no known family nothing but delegation, and every other family
/// all seven authorities.
pub proof fn law_authority_ends_at_the_family(family: DeviceFamily)
    ensures
        family is InputController ==> family.authority_ceiling() & AUTHORITY_DMA == 0
            && family.authority_ceiling() & AUTHORITY_PUBLISH == 0 && family.authority_ceiling()
            == 91,
        family is Other ==> family.authority_ceiling() == 1,
        !(family is InputController) && !(family is Other) ==> family.authority_ceiling() == 127,
{
    lemma_census_bits(0, 0, 0, 0, 0, 0, 0, 0, 0, 0, false, false);
}

/// A plain function has six base registers, a bridge two, and any other header
/// none; the top bit of the header type does not count.
pub proof fn law_headers_tell_their_registers(header_type: u8)
    ensures
        crate::device_census::bar_slots(header_type) == (if header_type % 128 == 0 {
            6int
        } else if header_type % 128 == 1 {
            2
        } else {
            0
        }),
{
    crate::bits::lemma_byte(header_type);
}

/// What was observed of a function: identity, class and configuration always,
/// an interrupt where it has a pin, and coverage where its translation unit is
/// known.
pub proof fn law_observed_evidence_is_a_sum(interrupt_pin: u8, dmar_covered: bool)
    ensures
        crate::device_census::observed_evidence(interrupt_pin, dmar_covered) == 19 + (
        if interrupt_pin != 0 {
            4int
        } else {
            0
        }) + (if dmar_covered {
            8int
        } else {
            0
        }),
{
    lemma_census_bits(0, 0, 0, 0, 0, 0, 0, 0, 0, 0, interrupt_pin != 0, dmar_covered);
}

/// Evidence is valid when the function answers, has a place that PCI has, shows
/// identity, class and configuration, has the registers of its header, is
/// covered exactly if it says so, and is sealed.
pub proof fn law_when_evidence_is_valid(evidence: PciFunctionEvidence)
    ensures
        evidence.valid() <==> {
            &&& 0 < evidence.vendor_id < 0xffff
            &&& evidence.address.slot < 32
            &&& evidence.address.function < 8
            &&& evidence.evidence_mask % 4 == 3
            &&& evidence.evidence_mask / 16 % 2 == 1
            &&& evidence.dmar_covered <==> evidence.evidence_mask / 8 % 2 == 1
            &&& evidence.bar_count == (if evidence.header_type % 128 == 0 {
                6int
            } else if evidence.header_type % 128 == 1 {
                2
            } else {
                0
            })
            &&& evidence.evidence_root != 0
        },
{
    lemma_census_bits(0, evidence.evidence_mask, 0, 0, 0, 0, 0, 0, 0, 0, false, false);
    law_headers_tell_their_registers(evidence.header_type);
}

/// A measured function keeps the fields of the device it was measured from.
pub proof fn law_evidence_is_the_device(secret: u64, device: PciDevice, dmar_covered: bool)
    ensures
        ({
            let evidence = crate::device_census::evidence_of(secret, device, dmar_covered);
            &&& evidence.address.segment == 0
            &&& (evidence.address.bus, evidence.address.slot, evidence.address.function) == (
                device.address.bus,
                device.address.slot,
                device.address.function,
            )
            &&& (evidence.vendor_id, evidence.device_id) == (device.vendor_id, device.device_id)
            &&& (evidence.class_code, evidence.subclass, evidence.programming_interface) == (
                device.class_code,
                device.subclass,
                device.programming_interface,
            )
            &&& (evidence.revision, evidence.header_type) == (device.revision, device.header_type)
            &&& (evidence.interrupt_line, evidence.interrupt_pin) == (
                device.interrupt_line,
                device.interrupt_pin,
            )
            &&& (evidence.command, evidence.bar_count) == (device.command, device.bar_count)
            &&& evidence.raw_bars == device.raw_bars
            &&& evidence.dmar_covered == dmar_covered
        }),
{
}

/// A manifest matches a function of its family and vendor (0xffff is any) that
/// agrees with it on every masked bit of device, class, subclass and interface
/// and has a revision in its range.
pub proof fn law_a_manifest_compares_under_its_masks(
    manifest: DriverBindingManifest,
    evidence: PciFunctionEvidence,
)
    ensures
        manifest.matches(evidence) <==> {
            &&& manifest.valid()
            &&& manifest.family == evidence.family
            &&& manifest.vendor_id == 0xffff || manifest.vendor_id == evidence.vendor_id
            &&& (evidence.device_id ^ manifest.device_id_value) & manifest.device_id_mask == 0
            &&& (evidence.class_code ^ manifest.class_code_value) & manifest.class_code_mask == 0
            &&& (evidence.subclass ^ manifest.subclass_value) & manifest.subclass_mask == 0
            &&& (evidence.programming_interface ^ manifest.programming_interface_value)
                & manifest.programming_interface_mask == 0
            &&& manifest.revision_minimum <= evidence.revision <= manifest.revision_maximum
        },
        manifest.valid() ==> manifest.requested_authority != 0 && manifest.requested_authority
            & manifest.family.authority_ceiling() == manifest.requested_authority
            && manifest.driver_id != 0 && manifest.revision_minimum <= manifest.revision_maximum,
{
    lemma_census_bits(
        0,
        0,
        manifest.requested_authority,
        manifest.family.authority_ceiling(),
        evidence.device_id,
        manifest.device_id_value,
        manifest.device_id_mask,
        evidence.class_code,
        manifest.class_code_value,
        manifest.class_code_mask,
        false,
        false,
    );
    lemma_census_bits(
        0,
        0,
        0,
        0,
        0,
        0,
        0,
        evidence.subclass,
        manifest.subclass_value,
        manifest.subclass_mask,
        false,
        false,
    );
    lemma_census_bits(
        0,
        0,
        0,
        0,
        0,
        0,
        0,
        evidence.programming_interface,
        manifest.programming_interface_value,
        manifest.programming_interface_mask,
        false,
        false,
    );
}

/// A slot can be claimed exactly when it is detected and matches, all required
/// evidence is there, and all requested authority is available and within the
/// family's. What is missing is named, and nothing that is there.
pub proof fn law_when_a_slot_can_be_claimed(
    slot: RetainedDeviceRecord,
    manifest: DriverBindingManifest,
    available: u64,
)
    ensures
        crate::device_census::claim_fault(slot, manifest, available) is None <==> {
            &&& slot.state is Detected
            &&& manifest.matches(slot.evidence)
            &&& manifest.required_evidence & slot.evidence.evidence_mask
                == manifest.required_evidence
            &&& manifest.requested_authority & available == manifest.requested_authority
            &&& manifest.requested_authority & slot.evidence.family.authority_ceiling()
                == manifest.requested_authority
        },
        crate::device_census::claim_fault(slot, manifest, available) matches Some(
            CensusError::EvidenceMissing(missing),
        ) ==> missing != 0 && missing & slot.evidence.evidence_mask == 0 && missing
            & manifest.required_evidence == missing,
        crate::device_census::claim_fault(slot, manifest, available) matches Some(
            CensusError::AuthorityUnavailable(missing),
        ) ==> missing != 0 && missing & available == 0 && missing & manifest.requested_authority
            == missing,
        crate::device_census::claim_fault(slot, manifest, available) matches Some(
            CensusError::AuthorityExceedsClass(missing),
        ) ==> missing != 0 && missing & slot.evidence.family.authority_ceiling() == 0 && missing
            & manifest.requested_authority == missing,
{
    lemma_census_bits(
        manifest.required_evidence,
        slot.evidence.evidence_mask,
        manifest.requested_authority,
        available,
        0,
        0,
        0,
        0,
        0,
        0,
        false,
        false,
    );
    lemma_census_bits(
        0,
        0,
        manifest.requested_authority,
        slot.evidence.family.authority_ceiling(),
        0,
        0,
        0,
        0,
        0,
        0,
        false,
        false,
    );
}

/// Claiming a family claims every slot that matches, for the manifest's driver
/// and authority, and leaves the others and all evidence.
pub proof fn law_claiming_touches_only_what_matches(
    slots: Seq<RetainedDeviceRecord>,
    manifest: DriverBindingManifest,
    i: int,
)
    requires
        0 <= i < slots.len(),
    ensures
        ({
            let after = crate::device_census::family_claimed(slots, manifest, slots.len() as int);
            &&& after.len() == slots.len()
            &&& after[i].evidence == slots[i].evidence
            &&& after[i].generation == slots[i].generation
            &&& after[i].terminal_root == slots[i].terminal_root
            &&& manifest.matches(slots[i].evidence) ==> after[i].state is Claimed
                && after[i].driver_id == manifest.driver_id && after[i].authority
                == manifest.requested_authority
            &&& !manifest.matches(slots[i].evidence) ==> after[i] == slots[i]
        }),
{
}

/// The positions that match are listed in order, each once, and no other.
pub proof fn law_matching_positions_are_listed_in_order(
    slots: Seq<RetainedDeviceRecord>,
    manifest: DriverBindingManifest,
    upto: int,
)
    requires
        0 <= upto <= slots.len(),
    ensures
        ({
            let found = crate::device_census::matching_positions(slots, manifest, upto);
            &&& forall|k: int|
                0 <= k < found.len() ==> 0 <= #[trigger] found[k] < upto && manifest.matches(
                    slots[found[k]].evidence,
                )
            &&& forall|k: int, l: int|
                0 <= k < l < found.len() ==> #[trigger] found[k] < #[trigger] found[l]
            &&& forall|i: int|
                0 <= i < upto && manifest.matches((#[trigger] slots[i]).evidence)
                    ==> found.contains(i)
        }),
    decreases upto,
{
    if upto > 0 {
        law_matching_positions_are_listed_in_order(slots, manifest, upto - 1);
        let earlier = crate::device_census::matching_positions(slots, manifest, upto - 1);
        let found = crate::device_census::matching_positions(slots, manifest, upto);
        assert forall|i: int|
            0 <= i < upto && manifest.matches(
                (#[trigger] slots[i]).evidence,
            ) implies found.contains(i) by {
            if i == upto - 1 {
                assert(found[found.len() - 1] == i);
            } else {
                let k = choose|k: int| 0 <= k < earlier.len() && earlier[k] == i;
                assert(found[k] == i);
            }
        }
    }
}

/// A claim is live only on a claimed slot of its own generation, address,
/// evidence, driver and authority, under its own seal.
pub proof fn law_a_live_claim_agrees_with_its_slot(
    secret: u64,
    slots: Seq<RetainedDeviceRecord>,
    claim: BindingClaim,
)
    requires
        crate::device_census::live_fault(secret, slots, claim) is None,
    ensures
        claim.root_of() != 0,
        claim.root_of() == crate::seal::seal_of(secret, claim.words()),
        claim.slot_of() < slots.len(),
        slots[claim.slot_of() as int].state is Claimed,
        slots[claim.slot_of() as int].generation == claim.generation_of(),
        slots[claim.slot_of() as int].evidence.address == claim.address_of(),
        slots[claim.slot_of() as int].evidence.evidence_root == claim.evidence_root_of(),
        slots[claim.slot_of() as int].driver_id == claim.driver_of(),
        slots[claim.slot_of() as int].authority == claim.authority_of(),
{
}

/// One more slot counts once for its family and once for its state.
pub proof fn law_slots_are_counted_once(
    slots: Seq<RetainedDeviceRecord>,
    slot: RetainedDeviceRecord,
    family: DeviceFamily,
    state: DeviceState,
)
    ensures
        crate::device_census::family_count(slots.push(slot), family)
            - crate::device_census::family_count(slots, family) == (if slot.evidence.family
            == family {
            1int
        } else {
            0
        }),
        crate::device_census::state_count(slots.push(slot), state)
            - crate::device_census::state_count(slots, state) == (if slot.state == state {
            1int
        } else {
            0
        }),
        crate::device_census::family_count(Seq::empty(), family) == 0,
        crate::device_census::state_count(Seq::empty(), state) == 0,
{
    assert(slots.push(slot).drop_last() =~= slots);
}

/// A new function starts detected, in its first generation, with no driver.
pub proof fn law_new_functions_are_only_detected(evidence: PciFunctionEvidence)
    ensures
        ({
            let record = crate::device_census::detected(evidence);
            record.evidence == evidence && record.state is Detected && record.generation == 1
                && record.driver_id == 0 && record.authority == 0 && record.terminal_root == 0
        }),
{
}

/// The root of evidence changes with each single field of it: address,
/// identity, class, revision, header, interrupt, command, registers, family,
/// mask and coverage.
pub proof fn law_evidence_roots_cover_every_field(
    secret: u64,
    evidence: PciFunctionEvidence,
    half: u16,
    byte: u8,
    mask: u32,
    covered: bool,
    family: DeviceFamily,
)
    ensures
        half != evidence.address.segment ==> crate::seal::seal_of(
            secret,
            (
                PciFunctionEvidence {
                    address: crate::device_census::DeviceAddress {
                        segment: half,
                        ..evidence.address
                    },
                    ..evidence
                }
            ).words(),
        ) != crate::seal::seal_of(secret, evidence.words()),
        byte != evidence.address.bus ==> crate::seal::seal_of(
            secret,
            (
                PciFunctionEvidence {
                    address: crate::device_census::DeviceAddress { bus: byte, ..evidence.address },
                    ..evidence
                }
            ).words(),
        ) != crate::seal::seal_of(secret, evidence.words()),
        byte != evidence.address.slot ==> crate::seal::seal_of(
            secret,
            (
                PciFunctionEvidence {
                    address: crate::device_census::DeviceAddress { slot: byte, ..evidence.address },
                    ..evidence
                }
            ).words(),
        ) != crate::seal::seal_of(secret, evidence.words()),
        byte != evidence.address.function ==> crate::seal::seal_of(
            secret,
            (
                PciFunctionEvidence {
                    address: crate::device_census::DeviceAddress {
                        function: byte,
                        ..evidence.address
                    },
                    ..evidence
                }
            ).words(),
        ) != crate::seal::seal_of(secret, evidence.words()),
        half != evidence.vendor_id ==> crate::seal::seal_of(
            secret,
            (PciFunctionEvidence { vendor_id: half, ..evidence }).words(),
        ) != crate::seal::seal_of(secret, evidence.words()),
        half != evidence.device_id ==> crate::seal::seal_of(
            secret,
            (PciFunctionEvidence { device_id: half, ..evidence }).words(),
        ) != crate::seal::seal_of(secret, evidence.words()),
        byte != evidence.class_code ==> crate::seal::seal_of(
            secret,
            (PciFunctionEvidence { class_code: byte, ..evidence }).words(),
        ) != crate::seal::seal_of(secret, evidence.words()),
        byte != evidence.subclass ==> crate::seal::seal_of(
            secret,
            (PciFunctionEvidence { subclass: byte, ..evidence }).words(),
        ) != crate::seal::seal_of(secret, evidence.words()),
        byte != evidence.programming_interface ==> crate::seal::seal_of(
            secret,
            (PciFunctionEvidence { programming_interface: byte, ..evidence }).words(),
        ) != crate::seal::seal_of(secret, evidence.words()),
        byte != evidence.revision ==> crate::seal::seal_of(
            secret,
            (PciFunctionEvidence { revision: byte, ..evidence }).words(),
        ) != crate::seal::seal_of(secret, evidence.words()),
        byte != evidence.header_type ==> crate::seal::seal_of(
            secret,
            (PciFunctionEvidence { header_type: byte, ..evidence }).words(),
        ) != crate::seal::seal_of(secret, evidence.words()),
        byte != evidence.interrupt_line ==> crate::seal::seal_of(
            secret,
            (PciFunctionEvidence { interrupt_line: byte, ..evidence }).words(),
        ) != crate::seal::seal_of(secret, evidence.words()),
        byte != evidence.interrupt_pin ==> crate::seal::seal_of(
            secret,
            (PciFunctionEvidence { interrupt_pin: byte, ..evidence }).words(),
        ) != crate::seal::seal_of(secret, evidence.words()),
        half != evidence.command ==> crate::seal::seal_of(
            secret,
            (PciFunctionEvidence { command: half, ..evidence }).words(),
        ) != crate::seal::seal_of(secret, evidence.words()),
        byte != evidence.bar_count ==> crate::seal::seal_of(
            secret,
            (PciFunctionEvidence { bar_count: byte, ..evidence }).words(),
        ) != crate::seal::seal_of(secret, evidence.words()),
        mask != evidence.evidence_mask ==> crate::seal::seal_of(
            secret,
            (PciFunctionEvidence { evidence_mask: mask, ..evidence }).words(),
        ) != crate::seal::seal_of(secret, evidence.words()),
        covered != evidence.dmar_covered ==> crate::seal::seal_of(
            secret,
            (PciFunctionEvidence { dmar_covered: covered, ..evidence }).words(),
        ) != crate::seal::seal_of(secret, evidence.words()),
        family != evidence.family ==> crate::seal::seal_of(
            secret,
            (PciFunctionEvidence { family, ..evidence }).words(),
        ) != crate::seal::seal_of(secret, evidence.words()),
{
    if half != evidence.address.segment {
        crate::laws::seal::law_one_changed_word_changes_the_root(
            secret,
            evidence.words(),
            (
                PciFunctionEvidence {
                    address: crate::device_census::DeviceAddress {
                        segment: half,
                        ..evidence.address
                    },
                    ..evidence
                }
            ).words(),
            0,
        );
    }
    if byte != evidence.address.bus {
        crate::laws::seal::law_one_changed_word_changes_the_root(
            secret,
            evidence.words(),
            (
                PciFunctionEvidence {
                    address: crate::device_census::DeviceAddress { bus: byte, ..evidence.address },
                    ..evidence
                }
            ).words(),
            1,
        );
    }
    if byte != evidence.address.slot {
        crate::laws::seal::law_one_changed_word_changes_the_root(
            secret,
            evidence.words(),
            (
                PciFunctionEvidence {
                    address: crate::device_census::DeviceAddress { slot: byte, ..evidence.address },
                    ..evidence
                }
            ).words(),
            2,
        );
    }
    if byte != evidence.address.function {
        crate::laws::seal::law_one_changed_word_changes_the_root(
            secret,
            evidence.words(),
            (
                PciFunctionEvidence {
                    address: crate::device_census::DeviceAddress {
                        function: byte,
                        ..evidence.address
                    },
                    ..evidence
                }
            ).words(),
            3,
        );
    }
    if half != evidence.vendor_id {
        crate::laws::seal::law_one_changed_word_changes_the_root(
            secret,
            evidence.words(),
            (PciFunctionEvidence { vendor_id: half, ..evidence }).words(),
            4,
        );
    }
    if half != evidence.device_id {
        crate::laws::seal::law_one_changed_word_changes_the_root(
            secret,
            evidence.words(),
            (PciFunctionEvidence { device_id: half, ..evidence }).words(),
            5,
        );
    }
    if byte != evidence.class_code {
        crate::laws::seal::law_one_changed_word_changes_the_root(
            secret,
            evidence.words(),
            (PciFunctionEvidence { class_code: byte, ..evidence }).words(),
            6,
        );
    }
    if byte != evidence.subclass {
        crate::laws::seal::law_one_changed_word_changes_the_root(
            secret,
            evidence.words(),
            (PciFunctionEvidence { subclass: byte, ..evidence }).words(),
            7,
        );
    }
    if byte != evidence.programming_interface {
        crate::laws::seal::law_one_changed_word_changes_the_root(
            secret,
            evidence.words(),
            (PciFunctionEvidence { programming_interface: byte, ..evidence }).words(),
            8,
        );
    }
    if byte != evidence.revision {
        crate::laws::seal::law_one_changed_word_changes_the_root(
            secret,
            evidence.words(),
            (PciFunctionEvidence { revision: byte, ..evidence }).words(),
            9,
        );
    }
    if byte != evidence.header_type {
        crate::laws::seal::law_one_changed_word_changes_the_root(
            secret,
            evidence.words(),
            (PciFunctionEvidence { header_type: byte, ..evidence }).words(),
            10,
        );
    }
    if byte != evidence.interrupt_line {
        crate::laws::seal::law_one_changed_word_changes_the_root(
            secret,
            evidence.words(),
            (PciFunctionEvidence { interrupt_line: byte, ..evidence }).words(),
            11,
        );
    }
    if byte != evidence.interrupt_pin {
        crate::laws::seal::law_one_changed_word_changes_the_root(
            secret,
            evidence.words(),
            (PciFunctionEvidence { interrupt_pin: byte, ..evidence }).words(),
            12,
        );
    }
    if half != evidence.command {
        crate::laws::seal::law_one_changed_word_changes_the_root(
            secret,
            evidence.words(),
            (PciFunctionEvidence { command: half, ..evidence }).words(),
            13,
        );
    }
    if byte != evidence.bar_count {
        crate::laws::seal::law_one_changed_word_changes_the_root(
            secret,
            evidence.words(),
            (PciFunctionEvidence { bar_count: byte, ..evidence }).words(),
            14,
        );
    }
    if mask != evidence.evidence_mask {
        crate::laws::seal::law_one_changed_word_changes_the_root(
            secret,
            evidence.words(),
            (PciFunctionEvidence { evidence_mask: mask, ..evidence }).words(),
            22,
        );
    }
    if covered != evidence.dmar_covered {
        crate::laws::seal::law_one_changed_word_changes_the_root(
            secret,
            evidence.words(),
            (PciFunctionEvidence { dmar_covered: covered, ..evidence }).words(),
            23,
        );
    }
    if family != evidence.family {
        crate::laws::seal::law_one_changed_word_changes_the_root(
            secret,
            evidence.words(),
            (PciFunctionEvidence { family, ..evidence }).words(),
            21,
        );
    }
}

/// The same of each single base register.
pub proof fn law_evidence_roots_cover_every_register(
    secret: u64,
    evidence: PciFunctionEvidence,
    raw_bars: [u32; 6],
    index: int,
)
    requires
        0 <= index < 6,
        raw_bars[index] != evidence.raw_bars[index],
        forall|i: int|
            0 <= i < 6 && i != index ==> (#[trigger] raw_bars[i]) == evidence.raw_bars[i],
    ensures
        crate::seal::seal_of(secret, (PciFunctionEvidence { raw_bars, ..evidence }).words())
            != crate::seal::seal_of(secret, evidence.words()),
{
    crate::laws::seal::law_one_changed_word_changes_the_root(
        secret,
        evidence.words(),
        (PciFunctionEvidence { raw_bars, ..evidence }).words(),
        15 + index,
    );
}

/// What a claim is sealed over: its slot, generation, address, evidence, driver
/// and authority.
pub proof fn law_a_claim_is_sealed_over_all_it_says(claim: BindingClaim)
    ensures
        claim.words().contains(claim.slot_of() as u64),
        claim.words().contains(claim.generation_of() as u64),
        claim.words().contains(claim.address_of().bus as u64),
        claim.words().contains(claim.address_of().slot as u64),
        claim.words().contains(claim.address_of().function as u64),
        claim.words().contains(claim.evidence_root_of()),
        claim.words().contains(claim.driver_of()),
        claim.words().contains(claim.authority_of()),
        claim.words().len() == 9,
{
    let words = claim.words();
    assert(words[0] == claim.slot_of() as u64);
    assert(words[1] == claim.generation_of() as u64);
    assert(words[3] == claim.address_of().bus as u64);
    assert(words[4] == claim.address_of().slot as u64);
    assert(words[5] == claim.address_of().function as u64);
    assert(words[6] == claim.evidence_root_of());
    assert(words[7] == claim.driver_of());
    assert(words[8] == claim.authority_of());
}

} // verus!
