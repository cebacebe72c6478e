//! Laws of what a display function is known by.

use vstd::prelude::*;

use crate::drivernet::configuration::ConfigurationEvent;
use crate::drivernet::fingerprint::BarEvidence;
use crate::drivernet::fingerprint::DeviceWords;
use crate::drivernet::fingerprint::FingerprintError;
use crate::drivernet::fingerprint::FirmwareFramebufferEvidence;
use crate::drivernet::fingerprint::FirmwareFramebufferKind;
use crate::drivernet::fingerprint::GpuFingerprint;
use crate::drivernet::fingerprint::PciFunctionAddress;
use crate::drivernet::fingerprint::TopologyEvidence;
use crate::drivernet::fingerprint::BAR_64BIT;
use crate::drivernet::fingerprint::BAR_IO;
use crate::drivernet::fingerprint::BAR_PREFETCHABLE;
use crate::drivernet::fingerprint::BAR_PRESENT;
use crate::drivernet::fingerprint::CAP_ACCESS_CONTROL_SERVICES;
use crate::drivernet::fingerprint::CAP_ADDRESS_TRANSLATION;
use crate::drivernet::fingerprint::CAP_ADVANCED_ERROR_REPORTING;
use crate::drivernet::fingerprint::CAP_AGP;
use crate::drivernet::fingerprint::CAP_MSI;
use crate::drivernet::fingerprint::CAP_MSIX;
use crate::drivernet::fingerprint::CAP_PCIE;
use crate::drivernet::fingerprint::CAP_POWER_MANAGEMENT;
use crate::drivernet::fingerprint::CAP_RESIZABLE_BAR;
use crate::drivernet::fingerprint::CAP_SRIOV;
use crate::drivernet::fingerprint::CAP_VENDOR_SPECIFIC;
use crate::drivernet::fingerprint::TOPOLOGY_BOOT_DISPLAY;
use crate::drivernet::fingerprint::TOPOLOGY_CONFIG_INCOMPLETE;
use crate::drivernet::fingerprint::TOPOLOGY_FIRMWARE_FRAMEBUFFER;
use crate::drivernet::fingerprint::TOPOLOGY_INVENTORY_OVERFLOW;
use crate::drivernet::inventory::PciFunctionRecord;

verus! {

/// Every flag is a bit of its own.
pub proof fn law_flags_are_single_bits()
    by (bit_vector)
    ensures
        CAP_MSI == 1 && CAP_MSIX == 2 && CAP_PCIE == 4 && CAP_POWER_MANAGEMENT == 8 && CAP_AGP == 16
            && CAP_VENDOR_SPECIFIC == 32 && CAP_ADVANCED_ERROR_REPORTING == 64
            && CAP_ACCESS_CONTROL_SERVICES == 128 && CAP_SRIOV == 256 && CAP_RESIZABLE_BAR == 512
            && CAP_ADDRESS_TRANSLATION == 1024,
        BAR_PRESENT == 1 && BAR_IO == 2 && BAR_64BIT == 4 && BAR_PREFETCHABLE == 8,
        TOPOLOGY_BOOT_DISPLAY == 1 && TOPOLOGY_FIRMWARE_FRAMEBUFFER == 32
            && TOPOLOGY_INVENTORY_OVERFLOW == 256 && TOPOLOGY_CONFIG_INCOMPLETE == 512,
{
}

proof fn lemma_flag_bits(flags: u32, more: u32, id: u8, wide: u16)
    by (bit_vector)
    ensures
        (flags | crate::drivernet::fingerprint::capability_flag(id)) & CAP_MSI != 0 <==> flags
            & CAP_MSI != 0 || id == 0x05,
        (flags | crate::drivernet::fingerprint::capability_flag(id)) & CAP_MSIX != 0 <==> flags
            & CAP_MSIX != 0 || id == 0x11,
        (flags | crate::drivernet::fingerprint::capability_flag(id)) & CAP_PCIE != 0 <==> flags
            & CAP_PCIE != 0 || id == 0x10,
        (flags | crate::drivernet::fingerprint::capability_flag(id)) & CAP_POWER_MANAGEMENT != 0
            <==> flags & CAP_POWER_MANAGEMENT != 0 || id == 0x01,
        (flags | crate::drivernet::fingerprint::capability_flag(id)) & CAP_AGP != 0 <==> flags
            & CAP_AGP != 0 || id == 0x02,
        (flags | crate::drivernet::fingerprint::capability_flag(id)) & CAP_VENDOR_SPECIFIC != 0
            <==> flags & CAP_VENDOR_SPECIFIC != 0 || id == 0x09,
        (flags | crate::drivernet::fingerprint::capability_flag(id)) & !0x3f == flags & !0x3f,
        (flags | crate::drivernet::fingerprint::extended_capability_flag(wide))
            & CAP_ADVANCED_ERROR_REPORTING != 0 <==> flags & CAP_ADVANCED_ERROR_REPORTING != 0
            || wide == 0x0001,
        (flags | crate::drivernet::fingerprint::extended_capability_flag(wide))
            & CAP_ACCESS_CONTROL_SERVICES != 0 <==> flags & CAP_ACCESS_CONTROL_SERVICES != 0 || wide
            == 0x000d,
        (flags | crate::drivernet::fingerprint::extended_capability_flag(wide))
            & CAP_ADDRESS_TRANSLATION != 0 <==> flags & CAP_ADDRESS_TRANSLATION != 0 || wide
            == 0x000f,
        (flags | crate::drivernet::fingerprint::extended_capability_flag(wide)) & CAP_SRIOV != 0
            <==> flags & CAP_SRIOV != 0 || wide == 0x0010,
        (flags | crate::drivernet::fingerprint::extended_capability_flag(wide)) & CAP_RESIZABLE_BAR
            != 0 <==> flags & CAP_RESIZABLE_BAR != 0 || wide == 0x0015,
        (flags | crate::drivernet::fingerprint::extended_capability_flag(wide)) & !0x7c0 == flags
            & !0x7c0,
        flags & !0x3f == 0 && more & !0x7c0 == 0 ==> ((flags | more) & CAP_MSI == flags & CAP_MSI
            && (flags | more) & CAP_MSIX == flags & CAP_MSIX && (flags | more) & CAP_PCIE == flags
            & CAP_PCIE && (flags | more) & CAP_POWER_MANAGEMENT == flags & CAP_POWER_MANAGEMENT && (
        flags | more) & CAP_AGP == flags & CAP_AGP && (flags | more) & CAP_VENDOR_SPECIFIC == flags
            & CAP_VENDOR_SPECIFIC && (flags | more) & CAP_ADVANCED_ERROR_REPORTING == more
            & CAP_ADVANCED_ERROR_REPORTING && (flags | more) & CAP_ACCESS_CONTROL_SERVICES == more
            & CAP_ACCESS_CONTROL_SERVICES && (flags | more) & CAP_ADDRESS_TRANSLATION == more
            & CAP_ADDRESS_TRANSLATION && (flags | more) & CAP_SRIOV == more & CAP_SRIOV && (flags
            | more) & CAP_RESIZABLE_BAR == more & CAP_RESIZABLE_BAR),
        0u32 & CAP_MSI == 0 && 0u32 & CAP_MSIX == 0 && 0u32 & CAP_PCIE == 0 && 0u32
            & CAP_POWER_MANAGEMENT == 0 && 0u32 & CAP_AGP == 0 && 0u32 & CAP_VENDOR_SPECIFIC == 0
            && 0u32 & CAP_ADVANCED_ERROR_REPORTING == 0 && 0u32 & CAP_ACCESS_CONTROL_SERVICES == 0
            && 0u32 & CAP_ADDRESS_TRANSLATION == 0 && 0u32 & CAP_SRIOV == 0 && 0u32
            & CAP_RESIZABLE_BAR == 0 && 0u32 & !0x3f == 0 && 0u32 & !0x7c0 == 0 && flags | 0 == flags,
{
}

/// A word of the conventional list, from 0x40 to 0xfc, whose low byte is `id`.
pub open spec fn names(event: ConfigurationEvent, id: u32) -> bool {
    event matches ConfigurationEvent::Word { address: _, offset, reply: Ok(word) } && 0x40 <= offset
        < 0x100 && word % 0x100 == id
}

/// A word of the extended list, from 0x100 on, whose low half is `id`.
pub open spec fn names_extended(event: ConfigurationEvent, id: u32) -> bool {
    event matches ConfigurationEvent::Word { address: _, offset, reply: Ok(word) } && 0x100
        <= offset && word % 0x1_0000 == id
}

pub open spec fn listed(log: Seq<ConfigurationEvent>, from: int, to: int, id: u32) -> bool {
    exists|i: int| from <= i < to && names(#[trigger] log[i], id)
}

pub open spec fn listed_extended(
    log: Seq<ConfigurationEvent>,
    from: int,
    to: int,
    id: u32,
) -> bool {
    exists|i: int| from <= i < to && names_extended(#[trigger] log[i], id)
}

/// What one finished walk of the conventional list says: each flag is set for
/// its identifier, and only for it.
pub open spec fn flags_tell(
    flags: u32,
    result: u32,
    log: Seq<ConfigurationEvent>,
    from: int,
    to: int,
) -> bool {
    &&& result & CAP_POWER_MANAGEMENT != 0 <==> flags & CAP_POWER_MANAGEMENT != 0 || listed(
        log,
        from,
        to,
        0x01,
    )
    &&& result & CAP_AGP != 0 <==> flags & CAP_AGP != 0 || listed(log, from, to, 0x02)
    &&& result & CAP_MSI != 0 <==> flags & CAP_MSI != 0 || listed(log, from, to, 0x05)
    &&& result & CAP_VENDOR_SPECIFIC != 0 <==> flags & CAP_VENDOR_SPECIFIC != 0 || listed(
        log,
        from,
        to,
        0x09,
    )
    &&& result & CAP_PCIE != 0 <==> flags & CAP_PCIE != 0 || listed(log, from, to, 0x10)
    &&& result & CAP_MSIX != 0 <==> flags & CAP_MSIX != 0 || listed(log, from, to, 0x11)
    &&& result & !0x3f == flags & !0x3f
}

/// The same of the extended list.
pub open spec fn extended_flags_tell(
    flags: u32,
    result: u32,
    log: Seq<ConfigurationEvent>,
    from: int,
    to: int,
) -> bool {
    &&& result & CAP_ADVANCED_ERROR_REPORTING != 0 <==> flags & CAP_ADVANCED_ERROR_REPORTING != 0
        || listed_extended(log, from, to, 0x0001)
    &&& result & CAP_ACCESS_CONTROL_SERVICES != 0 <==> flags & CAP_ACCESS_CONTROL_SERVICES != 0
        || listed_extended(log, from, to, 0x000d)
    &&& result & CAP_ADDRESS_TRANSLATION != 0 <==> flags & CAP_ADDRESS_TRANSLATION != 0
        || listed_extended(log, from, to, 0x000f)
    &&& result & CAP_SRIOV != 0 <==> flags & CAP_SRIOV != 0 || listed_extended(
        log,
        from,
        to,
        0x0010,
    )
    &&& result & CAP_RESIZABLE_BAR != 0 <==> flags & CAP_RESIZABLE_BAR != 0 || listed_extended(
        log,
        from,
        to,
        0x0015,
    )
    &&& result & !0x7c0 == flags & !0x7c0
}

proof fn lemma_listed_step(log: Seq<ConfigurationEvent>, from: int, to: int)
    requires
        from < to,
    ensures
        forall|id: u32| #[trigger]
            listed(log, from, to, id) <==> names(log[from], id) || listed(log, from + 1, to, id),
        forall|id: u32| #[trigger]
            listed_extended(log, from, to, id) <==> names_extended(log[from], id)
                || listed_extended(log, from + 1, to, id),
{
    assert forall|id: u32| #[trigger] listed(log, from, to, id) implies names(log[from], id)
        || listed(log, from + 1, to, id) by {
        let i = choose|i: int| from <= i < to && names(#[trigger] log[i], id);
        if i > from {
            assert(names(log[i], id));
        }
    }
    assert forall|id: u32| names(log[from], id) || listed(log, from + 1, to, id) implies #[trigger]
        listed(log, from, to, id) by {
        if names(log[from], id) {
            assert(names(log[from], id));
        } else {
            let i = choose|i: int| from + 1 <= i < to && names(#[trigger] log[i], id);
            assert(names(log[i], id));
        }
    }
    assert forall|id: u32| #[trigger] listed_extended(log, from, to, id) implies names_extended(
        log[from],
        id,
    ) || listed_extended(log, from + 1, to, id) by {
        let i = choose|i: int| from <= i < to && names_extended(#[trigger] log[i], id);
        if i > from {
            assert(names_extended(log[i], id));
        }
    }
    assert forall|id: u32|
        names_extended(log[from], id) || listed_extended(
            log,
            from + 1,
            to,
            id,
        ) implies #[trigger] listed_extended(log, from, to, id) by {
        if names_extended(log[from], id) {
            assert(names_extended(log[from], id));
        } else {
            let i = choose|i: int| from + 1 <= i < to && names_extended(#[trigger] log[i], id);
            assert(names_extended(log[i], id));
        }
    }
}

/// A conventional capability list that ends well sets the flag of each
/// identifier that it names (1 power management, 2 AGP, 5 MSI, 9 vendor
/// specific, 0x10 PCI Express, 0x11 MSI-X) and no other flag. It reads nothing
/// but aligned words from 0x40 to 0xfc, each at the offset that the second byte
/// of the word before names.
pub proof fn law_the_capability_list_sets_the_flags_it_names(
    address: PciFunctionAddress,
    pointer: u16,
    visited: Set<u16>,
    hops: int,
    flags: u32,
    log: Seq<ConfigurationEvent>,
    at: int,
    result: u32,
    end: int,
)
    requires
        0 <= hops <= 48,
        pointer < 0x100,
        crate::drivernet::fingerprint::capabilities_read(
            address,
            pointer,
            visited,
            hops,
            flags,
            log,
            at,
        ) == Some((Ok::<_, FingerprintError>(result), end)),
    ensures
        flags_tell(flags, result, log, at, end),
        at <= end <= at + 48 - hops,
        pointer == 0 <==> end == at,
        pointer != 0 ==> log[at] is Word && log[at]->Word_offset == pointer,
        forall|i: int|
            #![trigger log[i]]
            at <= i < end ==> {
                &&& log[i] matches ConfigurationEvent::Word {
                    address: asked,
                    offset,
                    reply: Ok(word),
                } && asked == address && 0x40 <= offset < 0x100 && offset % 4 == 0 && !(
                visited.contains(offset))
            },
        forall|i: int, j: int|
            #![trigger log[i], log[j]]
            at <= i < end && j == i + 1 && j < end ==> log[j]->Word_offset
                == log[i]->Word_reply->Ok_0 / 0x100 % 0x100 / 4 * 4,
    decreases 48 - hops,
{
    if pointer == 0 {
    } else {
        crate::bits::lemma_word16(pointer);
        let word = crate::drivernet::fingerprint::word_at(log, at, address, pointer)->0->Ok_0;
        crate::bits::lemma_word32(word);
        crate::bits::lemma_byte((word >> 8) as u8);
        lemma_flag_bits(flags, 0, word as u8, 0);
        let next = (((word >> 8) as u8) & 0xfc) as u16;
        law_the_capability_list_sets_the_flags_it_names(
            address,
            next,
            visited.insert(pointer),
            hops + 1,
            flags | crate::drivernet::fingerprint::capability_flag(word as u8),
            log,
            at + 1,
            result,
            end,
        );
        lemma_listed_step(log, at, end);
    }
}

/// An extended capability list that ends well sets the flag of each identifier
/// that it names (1 advanced error reporting, 0xd access control services, 0xf
/// address translation, 0x10 single root virtualization, 0x15 resizable base
/// registers) and no other flag, from aligned words at 0x100 and above.
pub proof fn law_the_extended_list_sets_the_flags_it_names(
    address: PciFunctionAddress,
    pointer: u16,
    visited: Set<u16>,
    hops: int,
    flags: u32,
    log: Seq<ConfigurationEvent>,
    at: int,
    result: u32,
    end: int,
)
    requires
        0 <= hops <= 64,
        crate::drivernet::fingerprint::extended_capabilities_read(
            address,
            pointer,
            visited,
            hops,
            flags,
            log,
            at,
        ) == Some((Ok::<_, FingerprintError>(result), end)),
    ensures
        extended_flags_tell(flags, result, log, at, end),
        at <= end <= at + 2 * (64 - hops),
        pointer == 0 <==> end == at,
        pointer != 0 ==> log[at] is Limit && log[at + 1] is Word && log[at + 1]->Word_offset
            == pointer && pointer <= log[at]->Limit_0 && (end > at + 2 ==> log[at + 3] is Word
            && log[at + 3]->Word_offset == log[at + 1]->Word_reply->Ok_0 / 0x10_0000 / 4 * 4),
        forall|i: int|
            #![trigger log[i]]
            at <= i < end ==> log[i] is Limit || (log[i] matches ConfigurationEvent::Word {
                address: asked,
                offset,
                reply: Ok(word),
            } && asked == address && 0x100 <= offset && offset % 4 == 0),
    decreases 64 - hops,
{
    if pointer != 0 {
        assert(pointer & 3 == pointer % 4) by {
            crate::bits::lemma_word16(pointer);
        }
        let header = crate::drivernet::fingerprint::word_at(log, at + 1, address, pointer)->0->Ok_0;
        assert(header as u16 == header % 0x1_0000 && header >> 20 == header / 0x10_0000) by {
            crate::bits::lemma_word32(header);
        }
        if header != 0 && header != u32::MAX {
            let next = ((header >> 20) as u16) & 0x0ffc;
            assert(next == header / 0x10_0000 / 4 * 4) by {
                crate::bits::lemma_word16((header >> 20) as u16);
                crate::bits::lemma_word32(header >> 20);
            }
            law_the_extended_list_sets_the_flags_it_names(
                address,
                next,
                visited.insert(pointer),
                hops + 1,
                flags | crate::drivernet::fingerprint::extended_capability_flag(header as u16),
                log,
                at + 2,
                result,
                end,
            );
        } else {
            assert(header == u32::MAX ==> header % 0x1_0000 == 0xffff);
        }
        lemma_listed_step(log, at, end);
        lemma_listed_step(log, at + 1, end);
        assert(extended_flags_tell(flags, result, log, at, end)) by {
            lemma_flag_bits(flags, 0, 0, header as u16);
        }
    }
}

proof fn lemma_listed_parts(log: Seq<ConfigurationEvent>, from: int, middle: int, to: int)
    requires
        from <= middle <= to,
    ensures
        forall|id: u32| #[trigger]
            listed(log, from, to, id) <==> listed(log, from, middle, id) || listed(
                log,
                middle,
                to,
                id,
            ),
        forall|id: u32| #[trigger]
            listed_extended(log, from, to, id) <==> listed_extended(log, from, middle, id)
                || listed_extended(log, middle, to, id),
    decreases middle - from,
{
    if from < middle {
        lemma_listed_parts(log, from + 1, middle, to);
        lemma_listed_step(log, from, to);
        lemma_listed_step(log, from, middle);
    }
}

/// The capability flags of a function tell exactly which identifiers its two
/// lists name. A function whose status word has bit 4 clear has no conventional
/// list.
pub proof fn law_capability_flags_tell_what_was_listed(
    address: PciFunctionAddress,
    status: u16,
    log: Seq<ConfigurationEvent>,
    at: int,
    flags: u32,
    end: int,
)
    requires
        crate::drivernet::fingerprint::capability_flags_read(address, status, log, at) == Some(
            (Ok::<_, FingerprintError>(flags), end),
        ),
    ensures
        flags & CAP_POWER_MANAGEMENT != 0 <==> listed(log, at, end, 0x01),
        flags & CAP_AGP != 0 <==> listed(log, at, end, 0x02),
        flags & CAP_MSI != 0 <==> listed(log, at, end, 0x05),
        flags & CAP_VENDOR_SPECIFIC != 0 <==> listed(log, at, end, 0x09),
        flags & CAP_PCIE != 0 <==> listed(log, at, end, 0x10),
        flags & CAP_MSIX != 0 <==> listed(log, at, end, 0x11),
        flags & CAP_ADVANCED_ERROR_REPORTING != 0 <==> listed_extended(log, at, end, 0x0001),
        flags & CAP_ACCESS_CONTROL_SERVICES != 0 <==> listed_extended(log, at, end, 0x000d),
        flags & CAP_ADDRESS_TRANSLATION != 0 <==> listed_extended(log, at, end, 0x000f),
        flags & CAP_SRIOV != 0 <==> listed_extended(log, at, end, 0x0010),
        flags & CAP_RESIZABLE_BAR != 0 <==> listed_extended(log, at, end, 0x0015),
        status / 16 % 2 == 1 <==> log[at] is Word,
        status / 16 % 2 == 1 ==> log[at]->Word_offset == 0x34 && (log[at
            + 1] matches ConfigurationEvent::Word { address: _, offset, reply: _ } ==> offset
            == log[at]->Word_reply->Ok_0 % 0x100 / 4 * 4),
{
    assert(status & (1u16 << 4) != 0 <==> status / 16 % 2 == 1) by {
        crate::bits::lemma_word16(status);
    }
    let has_list = status / 16 % 2 == 1;
    let from = if has_list {
        at + 1
    } else {
        at
    };
    let header = crate::drivernet::fingerprint::word_at(log, at, address, 0x34)->0->Ok_0;
    let pointer = ((header as u8) & 0xfc) as u16;
    assert(pointer == header % 0x100 / 4 * 4) by {
        crate::bits::lemma_word32(header);
        crate::bits::lemma_byte(header as u8);
    }
    let (first, middle) = if has_list {
        crate::drivernet::fingerprint::capabilities_read(
            address,
            pointer,
            Set::empty(),
            0,
            0,
            log,
            at + 1,
        ).unwrap()
    } else {
        (Ok(0u32), at)
    };
    let early = first->Ok_0;
    assert(flags_tell(0, early, log, from, middle) && from <= middle) by {
        if has_list {
            law_the_capability_list_sets_the_flags_it_names(
                address,
                pointer,
                Set::empty(),
                0,
                0,
                log,
                at + 1,
                early,
                middle,
            );
        } else {
            assert(forall|id: u32| !(#[trigger] listed(log, from, middle, id)));
            lemma_flag_bits(0, 0, 0, 0);
        }
    }
    assert(forall|id: u32| !(#[trigger] listed_extended(log, from, middle, id))) by {
        if has_list {
            law_the_capability_list_sets_the_flags_it_names(
                address,
                pointer,
                Set::empty(),
                0,
                0,
                log,
                at + 1,
                early,
                middle,
            );
        }
    }
    let limit = log[middle]->Limit_0;
    let (second, last) = if limit >= 0x100 {
        crate::drivernet::fingerprint::extended_capabilities_read(
            address,
            0x0100,
            Set::empty(),
            0,
            0,
            log,
            middle + 1,
        ).unwrap()
    } else {
        (Ok(0u32), middle + 1)
    };
    let late = second->Ok_0;
    assert(extended_flags_tell(0, late, log, middle + 1, last) && middle < last && forall|id: u32|
        !(#[trigger] listed(log, middle + 1, last, id))) by {
        if limit >= 0x100 {
            law_the_extended_list_sets_the_flags_it_names(
                address,
                0x0100,
                Set::empty(),
                0,
                0,
                log,
                middle + 1,
                late,
                last,
            );
        } else {
            assert(forall|id: u32| !(#[trigger] listed_extended(log, middle + 1, last, id)));
            lemma_flag_bits(0, 0, 0, 0);
        }
    }
    assert(last == end && flags == early | late) by {
        lemma_flag_bits(early, 0, 0, 0);
    }
    lemma_listed_parts(log, from, middle, end);
    lemma_listed_step(log, middle, end);
    if has_list {
        lemma_listed_step(log, at, end);
    }
    lemma_flag_bits(0, 0, 0, 0);
    lemma_flag_bits(early, late, 0, 0);
    if has_list && pointer != 0 {
        law_the_capability_list_sets_the_flags_it_names(
            address,
            pointer,
            Set::empty(),
            0,
            0,
            log,
            at + 1,
            early,
            middle,
        );
    }
}

/// Whether a base register was recorded as its word describes it: an odd word is
/// an I/O register; an even one is prefetchable by bit 3 and wide where bits 1
/// and 2 say so and a next register exists.
pub open spec fn register_described(bar: BarEvidence, index: int, length: u64) -> bool {
    let low = bar.raw_low;
    let wide = low % 2 == 0 && low / 2 % 4 == 2 && index < 5;
    &&& low != 0
    &&& low != u32::MAX
    &&& bar.length == length
    &&& bar.flags & BAR_PRESENT != 0
    &&& bar.flags & BAR_IO != 0 <==> low % 2 == 1
    &&& bar.flags & BAR_PREFETCHABLE != 0 <==> low % 2 == 0 && low / 8 % 2 == 1
    &&& bar.flags & BAR_64BIT != 0 <==> wide
    &&& !wide ==> bar.raw_high == 0
}

proof fn lemma_register_flags(low: u32, wide: bool)
    by (bit_vector)
    ensures
        (BAR_PRESENT | BAR_IO) & BAR_PRESENT != 0 && (BAR_PRESENT | BAR_IO) & BAR_IO != 0 && (
        BAR_PRESENT | BAR_IO) & BAR_PREFETCHABLE == 0 && (BAR_PRESENT | BAR_IO) & BAR_64BIT == 0,
        0u8 & BAR_64BIT == 0 && 0u8 & BAR_PRESENT == 0,
        low & 1 == low % 2,
        (low >> 1) & 0b11 == low / 2 % 4,
        low & (1u32 << 3) != 0 <==> low / 8 % 2 == 1,
        ({
            let flags = BAR_PRESENT | (if low & (1u32 << 3) != 0 {
                BAR_PREFETCHABLE
            } else {
                0u8
            }) | (if wide {
                BAR_64BIT
            } else {
                0u8
            });
            flags & BAR_PRESENT != 0 && flags & BAR_IO == 0 && (flags & BAR_PREFETCHABLE != 0 <==> low
                & (1u32 << 3) != 0) && (flags & BAR_64BIT != 0 <==> wide)
        }),
{
}

proof fn lemma_register_is_described(index: int, low: u32, high: u32, lengths: Seq<u64>)
    requires
        0 <= index < 6,
        low != 0,
        low != u32::MAX,
        !crate::drivernet::fingerprint::bar_is_wide(index as usize, low) ==> high == 0,
    ensures
        register_described(
            crate::drivernet::fingerprint::bar_read(index, low, high, lengths),
            index,
            lengths[index],
        ),
        crate::drivernet::fingerprint::bar_is_wide(index as usize, low) <==> low % 2 == 0 && low / 2
            % 4 == 2 && index < 5,
{
    lemma_register_flags(low, crate::drivernet::fingerprint::bar_is_wide(index as usize, low));
}

/// What a finished walk over the base registers recorded.
pub open spec fn registers_described(bars: Seq<BarEvidence>, lengths: Seq<u64>, upto: int) -> bool {
    &&& bars.len() == 6
    &&& forall|i: int|
        #![trigger bars[i]]
        0 <= i < 6 ==> bars[i] == BarEvidence::empty() || (i < upto && register_described(
            bars[i],
            i,
            lengths[i],
        ))
    &&& forall|i: int, j: int|
        #![trigger bars[i], bars[j]]
        0 <= i && j == i + 1 && j < 6 && bars[i].flags & BAR_64BIT != 0 ==> bars[j]
            == BarEvidence::empty()
}

proof fn lemma_registers_are_described(
    address: PciFunctionAddress,
    lengths: Seq<u64>,
    index: int,
    bars: Seq<BarEvidence>,
    log: Seq<ConfigurationEvent>,
    at: int,
    ended: Seq<BarEvidence>,
    end: int,
)
    requires
        0 <= index <= 6,
        registers_described(bars, lengths, index),
        index > 0 ==> bars[index - 1].flags & BAR_64BIT == 0,
        crate::drivernet::fingerprint::bars_read(address, lengths, index, bars, log, at) == Some(
            (Ok::<_, FingerprintError>(ended), end),
        ),
    ensures
        registers_described(ended, lengths, 6),
        forall|i: int| 0 <= i < index ==> (#[trigger] ended[i]) == bars[i],
        forall|i: int|
            #![trigger ended[i]]
            index <= i < 6 && ended[i] != BarEvidence::empty() ==> exists|k: int|
                at <= k < end && #[trigger] log[k] == (ConfigurationEvent::Word {
                    address,
                    offset: (0x10 + 4 * i) as u16,
                    reply: Ok(ended[i].raw_low),
                }) && (ended[i].flags & BAR_64BIT != 0 ==> log[k + 1] == (
                ConfigurationEvent::Word {
                    address,
                    offset: (0x14 + 4 * i) as u16,
                    reply: Ok(ended[i].raw_high),
                })),
        end >= at,
    decreases 6 - index,
{
    lemma_no_flags();
    if index < 6 {
        let low = crate::drivernet::fingerprint::word_at(
            log,
            at,
            address,
            crate::drivernet::fingerprint::bar_offset(index),
        )->0->Ok_0;
        if low == 0 || low == u32::MAX {
            assert(bars[index] == BarEvidence::empty());
            lemma_registers_are_described(
                address,
                lengths,
                index + 1,
                bars,
                log,
                at + 1,
                ended,
                end,
            );
            assert(ended[index] == bars[index]);
        } else if crate::drivernet::fingerprint::bar_is_wide(index as usize, low) {
            let high = crate::drivernet::fingerprint::word_at(
                log,
                at + 1,
                address,
                crate::drivernet::fingerprint::bar_offset(index + 1),
            )->0->Ok_0;
            lemma_register_is_described(index, low, high, lengths);
            let read = crate::drivernet::fingerprint::bar_read(index, low, high, lengths);
            let grown = bars.update(index, read);
            assert(bars[index + 1] == BarEvidence::empty());
            assert(grown[index + 1] == BarEvidence::empty());
            lemma_registers_are_described(
                address,
                lengths,
                index + 2,
                grown,
                log,
                at + 2,
                ended,
                end,
            );
            assert(ended[index] == grown[index]);
            assert(ended[index + 1] == grown[index + 1]);
            assert(log[at] == (ConfigurationEvent::Word {
                address,
                offset: (0x10 + 4 * index) as u16,
                reply: Ok(ended[index].raw_low),
            }));
            assert forall|i: int| 0 <= i < index implies (#[trigger] ended[i]) == bars[i] by {
                assert(ended[i] == grown[i]);
            }
        } else {
            lemma_register_is_described(index, low, 0, lengths);
            let read = crate::drivernet::fingerprint::bar_read(index, low, 0, lengths);
            let grown = bars.update(index, read);
            assert forall|i: int, j: int|
                #![trigger grown[i], grown[j]]
                0 <= i && j == i + 1 && j < 6 && grown[i].flags & BAR_64BIT
                    != 0 implies grown[j] == BarEvidence::empty() by {
                if j == index {
                    assert(grown[i] == bars[index - 1]);
                } else if i < index {
                    assert(grown[i] == bars[i] && grown[j] == bars[j]);
                } else if i > index {
                    assert(bars[i] == BarEvidence::empty());
                }
            }
            lemma_registers_are_described(
                address,
                lengths,
                index + 1,
                grown,
                log,
                at + 1,
                ended,
                end,
            );
            assert(ended[index] == grown[index]);
            assert(log[at] == (ConfigurationEvent::Word {
                address,
                offset: (0x10 + 4 * index) as u16,
                reply: Ok(ended[index].raw_low),
            }));
            assert forall|i: int| 0 <= i < index implies (#[trigger] ended[i]) == bars[i] by {
                assert(ended[i] == grown[i]);
            }
        }
    }
}

proof fn lemma_no_flags()
    ensures
        BarEvidence::empty().flags & BAR_64BIT == 0,
        BarEvidence::empty().flags & BAR_PRESENT == 0,
{
    lemma_register_flags(0, false);
}

/// Base registers are read at 0x10 and every four bytes on; each that is present
/// is recorded with its word, the length measured for it and what the word says
/// it is, and a wide one takes the next register as its upper half, which is
/// then not recorded by itself.
pub proof fn law_base_registers_are_recorded_as_read(
    address: PciFunctionAddress,
    lengths: Seq<u64>,
    log: Seq<ConfigurationEvent>,
    at: int,
    bars: Seq<BarEvidence>,
    end: int,
)
    requires
        crate::drivernet::fingerprint::bars_read(
            address,
            lengths,
            0,
            crate::drivernet::fingerprint::no_bars(),
            log,
            at,
        ) == Some((Ok::<_, FingerprintError>(bars), end)),
    ensures
        registers_described(bars, lengths, 6),
        forall|i: int|
            #![trigger bars[i]]
            0 <= i < 6 && bars[i] != BarEvidence::empty() ==> exists|k: int|
                at <= k < end && #[trigger] log[k] == (ConfigurationEvent::Word {
                    address,
                    offset: (0x10 + 4 * i) as u16,
                    reply: Ok(bars[i].raw_low),
                }) && (bars[i].flags & BAR_64BIT != 0 ==> log[k + 1] == (ConfigurationEvent::Word {
                    address,
                    offset: (0x14 + 4 * i) as u16,
                    reply: Ok(bars[i].raw_high),
                })),
{
    lemma_no_flags();
    lemma_registers_are_described(
        address,
        lengths,
        0,
        crate::drivernet::fingerprint::no_bars(),
        log,
        at,
        bars,
        end,
    );
}

/// A register maps memory when it is present and no I/O register.
pub proof fn law_memory_registers(bar: BarEvidence)
    ensures
        bar.is_mmio() <==> bar.flags % 2 == 1 && bar.flags / 2 % 2 == 0,
        bar.present() <==> bar.flags % 2 == 1,
{
    crate::bits::lemma_byte(bar.flags);
    law_flags_are_single_bits();
}

/// One register more or less declared changes the declared memory by its length.
pub proof fn law_declared_memory_is_a_sum(
    bars: Seq<BarEvidence>,
    other: Seq<BarEvidence>,
    index: int,
)
    requires
        0 <= index < 6,
        forall|i: int| 0 <= i < 6 && i != index ==> (#[trigger] other[i]) == bars[i],
    ensures
        crate::drivernet::fingerprint::declared_below(other, 6)
            - crate::drivernet::fingerprint::declared_below(bars, 6) == other[index].length
            - bars[index].length,
        crate::drivernet::fingerprint::declared_below(bars, 6) >= bars[index].length,
{
    reveal_with_fuel(crate::drivernet::fingerprint::declared_below, 7);
    assert(index == 0 || other[0] == bars[0]);
    assert(index == 1 || other[1] == bars[1]);
    assert(index == 2 || other[2] == bars[2]);
    assert(index == 3 || other[3] == bars[3]);
    assert(index == 4 || other[4] == bars[4]);
    assert(index == 5 || other[5] == bars[5]);
}

/// Legacy access reaches aligned offsets below 256 of functions in segment zero.
pub proof fn law_what_legacy_access_reaches(address: PciFunctionAddress, offset: u16)
    ensures
        crate::drivernet::fingerprint::legacy_selection(address, offset) is Ok <==> offset % 4 == 0
            && offset < 256 && address.segment == 0 && address.slot < 32 && address.function < 8,
        crate::drivernet::fingerprint::legacy_selection(address, offset) matches Ok(selected)
            ==> selected.1 == offset && selected.0.bus == address.bus && selected.0.slot
            == address.slot && selected.0.function == address.function,
        offset % 4 != 0 <==> crate::drivernet::fingerprint::legacy_selection(address, offset)
            == Err::<(crate::pci::PciAddress, u8), _>(
            FingerprintError::UnalignedConfigurationOffset,
        ),
{
    crate::bits::lemma_word16(offset);
}

/// A framebuffer is usable when it exists, has extent and bytes, and is kept.
pub proof fn law_when_a_framebuffer_is_usable(firmware: FirmwareFramebufferEvidence)
    ensures
        firmware.usable() <==> firmware.kind.code() > 0 && firmware.width > 0 && firmware.height > 0
            && firmware.pitch > 0 && firmware.byte_length > 0 && firmware.retained,
        FirmwareFramebufferKind::Absent.code() == 0,
        FirmwareFramebufferKind::UefiGop.code() == 1,
        FirmwareFramebufferKind::Vbe.code() == 2,
        FirmwareFramebufferKind::SimpleFramebuffer.code() == 3,
        FirmwareFramebufferKind::Hypervisor.code() == 4,
        !FirmwareFramebufferEvidence::none().usable(),
{
}

proof fn lemma_topology_bits(reported: u32, usable: bool, overflowed: bool, incomplete: bool)
    by (bit_vector)
    ensures
        ({
            let flags = reported | (if usable {
                TOPOLOGY_FIRMWARE_FRAMEBUFFER
            } else {
                0u32
            }) | (if overflowed {
                TOPOLOGY_INVENTORY_OVERFLOW
            } else {
                0u32
            }) | (if incomplete {
                TOPOLOGY_CONFIG_INCOMPLETE
            } else {
                0u32
            });
            (flags & 32 != 0 <==> reported & 32 != 0 || usable) && (flags & 256 != 0 <==> reported
                & 256 != 0 || overflowed) && (flags & 512 != 0 <==> reported & 512 != 0
                || incomplete) && flags & !0x320 == reported & !0x320
        }),
        (reported | TOPOLOGY_FIRMWARE_FRAMEBUFFER) & 32 != 0 && (reported
            | TOPOLOGY_FIRMWARE_FRAMEBUFFER) & !32 == reported & !32,
        (TOPOLOGY_FIRMWARE_FRAMEBUFFER | TOPOLOGY_BOOT_DISPLAY | TOPOLOGY_INVENTORY_OVERFLOW)
            == 0x121,
        (TOPOLOGY_FIRMWARE_FRAMEBUFFER | TOPOLOGY_BOOT_DISPLAY) == 0x21,
{
}

/// A measured function adds to its reported topology a usable framebuffer, an
/// overflowed inventory and incomplete configuration, each by its own flag, and
/// takes nothing away.
pub proof fn law_measuring_adds_topology_flags(
    reported: u32,
    usable: bool,
    overflowed: bool,
    incomplete: bool,
)
    ensures
        ({
            let flags = crate::drivernet::fingerprint::measured_topology_flags(
                reported,
                usable,
                overflowed,
                incomplete,
            );
            &&& flags & 32 != 0 <==> reported & 32 != 0 || usable
            &&& flags & 256 != 0 <==> reported & 256 != 0 || overflowed
            &&& flags & 512 != 0 <==> reported & 512 != 0 || incomplete
            &&& flags & !0x320 == reported & !0x320
        }),
        crate::drivernet::fingerprint::synthetic_topology_flags(true) == 0x121,
        crate::drivernet::fingerprint::synthetic_topology_flags(false) == 0x21,
{
    lemma_topology_bits(reported, usable, overflowed, incomplete);
}

/// A fingerprint takes its place, identity and class from the function, its
/// subsystem, command and status from its words, low halves first, and the rest
/// from topology.
pub proof fn law_a_fingerprint_is_what_was_measured(
    function: PciFunctionRecord,
    topology: TopologyEvidence,
    words: DeviceWords,
    bars: [BarEvidence; 6],
    overflowed: bool,
)
    ensures
        ({
            let print = crate::drivernet::fingerprint::unsealed_fingerprint(
                function,
                topology,
                words,
                bars,
                overflowed,
            );
            &&& (print.segment, print.bus, print.slot, print.function) == (
                function.address.segment,
                function.address.bus,
                function.address.slot,
                function.address.function,
            )
            &&& (print.vendor_id, print.device_id) == (function.vendor_id, function.device_id)
            &&& (print.class_code, print.subclass, print.programming_interface, print.revision) == (
                function.class_code,
                function.subclass,
                function.programming_interface,
                function.revision,
            )
            &&& (print.header_type, print.interrupt_line, print.interrupt_pin) == (
                function.header_type,
                function.interrupt_line,
                function.interrupt_pin,
            )
            &&& print.subsystem_device_id * 0x1_0000 + print.subsystem_vendor_id == words.subsystem
            &&& print.status * 0x1_0000 + print.command == words.command_status
            &&& print.capability_flags == words.capability_flags
            &&& (print.acpi_path_hash, print.iommu_group) == (
                topology.acpi_path_hash,
                topology.iommu_group,
            )
            &&& (print.upstream_vendor_id, print.upstream_device_id) == (
                topology.upstream_vendor_id,
                topology.upstream_device_id,
            )
            &&& (print.root_port_depth, print.sibling_display_functions) == (
                topology.root_port_depth,
                topology.sibling_display_functions,
            )
            &&& print.firmware_framebuffer == topology.firmware_framebuffer
            &&& print.bars == bars
        }),
{
    crate::bits::lemma_parts(
        words.subsystem,
        0,
        0,
        0,
        0,
        (words.subsystem >> 16) as u16,
        words.subsystem as u16,
    );
    crate::bits::lemma_parts(
        words.command_status,
        0,
        0,
        0,
        0,
        (words.command_status >> 16) as u16,
        words.command_status as u16,
    );
}

/// The words of a function are read at 4 and 0x2c first, and where one cannot be
/// read the evidence is incomplete and the word reads as nothing.
pub proof fn law_device_words_are_read_in_order(
    address: PciFunctionAddress,
    lengths: Seq<u64>,
    log: Seq<ConfigurationEvent>,
    at: int,
    words: DeviceWords,
    end: int,
)
    requires
        crate::drivernet::fingerprint::device_read(address, lengths, log, at) == Some((words, end)),
    ensures
        log[at] is Word,
        log[at]->Word_offset == 4,
        log[at + 1] is Word,
        log[at + 1]->Word_offset == 0x2c,
        log[at]->Word_reply matches Ok(word) ==> words.command_status == word,
        log[at]->Word_reply is Err ==> words.command_status == 0 && words.incomplete,
        log[at + 1]->Word_reply matches Ok(word) ==> words.subsystem == word,
        log[at + 1]->Word_reply is Err ==> words.subsystem == u32::MAX && words.incomplete,
{
}

/// A function is found at its first place in the list.
pub proof fn law_the_first_place_is_found(
    functions: Seq<PciFunctionRecord>,
    address: PciFunctionAddress,
    from: int,
)
    requires
        0 <= from <= functions.len(),
    ensures
        ({
            let place = crate::drivernet::fingerprint::first_place(functions, address, from);
            &&& from <= place <= functions.len()
            &&& place < functions.len() ==> functions[place].address == address
            &&& forall|i: int| from <= i < place ==> (#[trigger] functions[i]).address != address
        }),
    decreases functions.len() - from,
{
    if from < functions.len() && functions[from].address != address {
        law_the_first_place_is_found(functions, address, from + 1);
    }
}

/// Functions are measured in the order of the inventory as far as there is room,
/// but the owner of the framebuffer first of all.
pub proof fn law_the_owner_is_measured_first(owner: Option<int>, upto: int, capacity: int)
    requires
        0 <= upto,
        1 <= capacity,
        owner matches Some(place) ==> 0 <= place,
    ensures
        ({
            let order = crate::drivernet::fingerprint::measuring_order(owner, upto, capacity);
            &&& owner is None ==> order.len() == (if upto < capacity {
                upto
            } else {
                capacity
            }) && forall|k: int| 0 <= k < order.len() ==> #[trigger] order[k] == k
            &&& owner matches Some(place) ==>
                order.len() >= 1 && order[0] == place && forall|k: int|
                1 <= k < order.len() ==> #[trigger] order[k] == (if k - 1 < place {
                    k - 1
                } else {
                    k
                })
            &&& order.len() <= capacity
            &&& owner matches Some(place) ==> (place < upto ==> order.len() == (if upto < capacity {
                upto
            } else {
                capacity
            }))
            &&& owner matches Some(place) ==> (place >= upto ==> order.len() == (if upto + 1
                < capacity {
                upto + 1
            } else {
                capacity
            }))
        }),
    decreases upto,
{
    if upto > 0 {
        law_the_owner_is_measured_first(owner, upto - 1, capacity);
    }
}

/// The owner takes over the boot framebuffer if that is usable and it has none
/// of its own; nothing else about it changes but its flag and its root.
pub proof fn law_the_owner_takes_over_the_framebuffer(
    secret: u64,
    fingerprint: GpuFingerprint,
    firmware: FirmwareFramebufferEvidence,
)
    ensures
        ({
            let after = crate::drivernet::fingerprint::adopting_framebuffer(
                secret,
                fingerprint,
                firmware,
            );
            let adopts = firmware.usable() && !fingerprint.firmware_framebuffer.usable();
            &&& adopts ==> after.firmware_framebuffer == firmware && after.topology_flags & 32 != 0
                && after.topology_flags & !32 == fingerprint.topology_flags & !32
            &&& !adopts ==> after == fingerprint
            &&& after == (GpuFingerprint {
                firmware_framebuffer: after.firmware_framebuffer,
                topology_flags: after.topology_flags,
                evidence_root: after.evidence_root,
                ..fingerprint
            })
        }),
{
    lemma_topology_bits(fingerprint.topology_flags, false, false, false);
}

/// The summary of an inventory never lists more than there is room for; a
/// framebuffer that no function owns takes one place by itself.
pub proof fn law_an_inventory_fits_its_room(
    model: crate::drivernet::inventory::InventoryModel,
    firmware: FirmwareFramebufferEvidence,
    room: int,
)
    requires
        2 <= room <= usize::MAX,
        model.functions.len() < usize::MAX,
    ensures
        ({
            let summary = crate::drivernet::fingerprint::inventory_summary(model, firmware, room);
            let owned = firmware.owner matches Some(owner) && exists|i: int|
                0 <= i < model.functions.len() && (#[trigger] model.functions[i]).address == owner;
            &&& summary.length <= room
            &&& summary.display_functions == model.functions.len()
            &&& summary.configuration_faults == model.faults
            &&& summary.synthetic_firmware_entry <==> firmware.usable() && !owned
            &&& summary.inventory_overflowed <==> model.overflowed || model.functions.len() > room
                - (if firmware.usable() && !owned {
                1int
            } else {
                0
            })
            &&& model.functions.len() < room ==> summary.length == model.functions.len() + (
            if firmware.usable() && !owned {
                1int
            } else {
                0
            })
        }),
{
    let owner = crate::drivernet::fingerprint::owner_place(model.functions, firmware);
    let capacity = crate::drivernet::fingerprint::function_capacity(
        model.functions,
        firmware,
        room,
    );
    if let Some(address) = firmware.owner {
        law_the_first_place_is_found(model.functions, address, 0);
    }
    law_the_owner_is_measured_first(owner, model.functions.len() as int, capacity);
}

proof fn lemma_fingerprint_words(
    a: u16,
    b: u16,
    c: u16,
    d: u16,
    p: u8,
    q: u8,
    r: u8,
    s: u8,
    t: u8,
    w: u32,
    v: u32,
)
    by (bit_vector)
    ensures
        (p as u64) | ((q as u64) << 8) | ((r as u64) << 16) == p + q * 0x100 + r * 0x1_0000,
        (a as u64) | ((b as u64) << 16) | ((c as u64) << 32) | ((d as u64) << 48) == a + b
            * 0x1_0000 + c * 0x1_0000_0000 + d * 0x1_0000_0000_0000,
        (p as u64) | ((q as u64) << 8) | ((r as u64) << 16) | ((s as u64) << 24) | ((t as u64)
            << 32) == p + q * 0x100 + r * 0x1_0000 + s * 0x100_0000 + t * 0x1_0000_0000,
        (a as u64) | ((b as u64) << 16) | ((w as u64) << 32) == a + b * 0x1_0000 + w
            * 0x1_0000_0000,
        (w as u64) | ((p as u64) << 32) | ((q as u64) << 40) == w + p * 0x1_0000_0000 + q
            * 0x100_0000_0000,
        (a as u64) | ((b as u64) << 16) == a + b * 0x1_0000,
        (w as u64) | ((v as u64) << 32) == w + v * 0x1_0000_0000,
{
}

/// A fingerprint is sealed over all its fields, packed without overlap.
pub proof fn law_a_fingerprint_is_sealed_over_all_its_fields(print: GpuFingerprint, i: int)
    requires
        0 <= i < 6,
    ensures
        ({
            let words = print.words();
            &&& words[1] == print.segment
            &&& words[2] == print.bus + print.slot * 0x100 + print.function * 0x1_0000
            &&& words[3] == print.vendor_id + print.device_id * 0x1_0000 + print.subsystem_vendor_id
                * 0x1_0000_0000 + print.subsystem_device_id * 0x1_0000_0000_0000
            &&& words[4] == print.revision + print.class_code * 0x100 + print.subclass * 0x1_0000
                + print.programming_interface * 0x100_0000 + print.header_type * 0x1_0000_0000
            &&& words[5] == print.command + print.status * 0x1_0000 + print.capability_flags
                * 0x1_0000_0000
            &&& words[6] == print.topology_flags
            &&& words[7] == print.acpi_path_hash
            &&& words[8] == print.iommu_group + print.root_port_depth * 0x1_0000_0000
                + print.sibling_display_functions * 0x100_0000_0000
            &&& words[9] == print.upstream_vendor_id + print.upstream_device_id * 0x1_0000
            &&& words[10 + 3 * i] == print.bars[i].raw_low + print.bars[i].raw_high * 0x1_0000_0000
            &&& words[11 + 3 * i] == print.bars[i].length
            &&& words[12 + 3 * i] == print.bars[i].flags
            &&& words.len() == 32 + (if print.firmware_framebuffer.owner is Some {
                1int
            } else {
                0
            })
            &&& words[30] == print.firmware_framebuffer.byte_length
            &&& words[31] == 1 <==> print.firmware_framebuffer.retained
        }),
{
    lemma_fingerprint_words(
        print.vendor_id,
        print.device_id,
        print.subsystem_vendor_id,
        print.subsystem_device_id,
        print.bus,
        print.slot,
        print.function,
        0,
        0,
        0,
        0,
    );
    lemma_fingerprint_words(
        print.command,
        print.status,
        0,
        0,
        print.revision,
        print.class_code,
        print.subclass,
        print.programming_interface,
        print.header_type,
        print.capability_flags,
        0,
    );
    lemma_fingerprint_words(
        print.upstream_vendor_id,
        print.upstream_device_id,
        0,
        0,
        print.root_port_depth,
        print.sibling_display_functions,
        0,
        0,
        0,
        print.iommu_group,
        0,
    );
    lemma_fingerprint_words(
        0,
        0,
        0,
        0,
        0,
        0,
        0,
        0,
        0,
        print.bars[i].raw_low,
        print.bars[i].raw_high,
    );
}

} // verus!
