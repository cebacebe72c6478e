//! Laws of what is carried out of the kernel: portable evidence, commands,
//! ranges and packets.

use vstd::prelude::*;

use crate::drivernet::fingerprint::BarEvidence;
use crate::drivernet::fingerprint::GpuFingerprint;
use crate::drivernet::fingerprint::PciFunctionAddress;
use crate::drivernet::model::DriverStrategy;
use crate::drivernet::fingerprint::TopologyEvidence;
use crate::drivernet::topology::TopologyRecord;
use crate::gpu_abi::GpuCompatibilityProof;
use crate::gpu_portability::PortabilityFault;
use crate::gpu_portability::PortabilityResolution;
use crate::net::NetworkDescriptor;
use crate::pci::Bar0ApertureLease;
use crate::pci::PciAddress;

verus! {

/// A base register that is not there has no address. One of ports is without its
/// two low bits, one of memory without its four low bits, and only a wide one
/// counts its high word.
pub proof fn law_a_base_register_is_carried_by_its_address(raw_low: u32, raw_high: u32, flags: u8)
    ensures
        ({
            let address = crate::gpu_portability::bar_address(raw_low, raw_high, flags);
            let present = flags & crate::drivernet::fingerprint::BAR_PRESENT != 0;
            let ports = flags & crate::drivernet::fingerprint::BAR_IO != 0;
            let wide = flags & crate::drivernet::fingerprint::BAR_64BIT != 0;
            &&& !present ==> address == 0
            &&& present && ports ==> address == raw_low - raw_low % 4
            &&& present && !ports && wide ==> address == raw_high * 0x1_0000_0000 + raw_low
                - raw_low % 16
            &&& present && !ports && !wide ==> address == raw_low - raw_low % 16
        }),
{
    assert(raw_low & !0x03 == raw_low - raw_low % 4 && raw_low & !0x0f == raw_low - raw_low % 16)
        by {
        crate::bits::lemma_word32(raw_low);
    }
    crate::bits::lemma_joined(raw_high, raw_low & !0x0f);
}

proof fn lemma_carried_bar(flags: u8, carried: u64)
    by (bit_vector)
    requires
        carried == (if flags & 1 != 0 {
            1u64
        } else {
            0u64
        }) | (if flags & 2 != 0 {
            2u64
        } else {
            0u64
        }) | (if flags & 4 != 0 {
            4u64
        } else {
            0u64
        }) | (if flags & 8 != 0 {
            8u64
        } else {
            0u64
        }),
    ensures
        (1u8 << 0u8) == 1,
        (1u8 << 1u8) == 2,
        (1u8 << 2u8) == 4,
        (1u8 << 3u8) == 8,
        (carried as u32) & 1 != 0 <==> flags & 1 != 0,
        (carried as u32) & 2 != 0 <==> flags & 2 != 0,
        (carried as u32) & 4 != 0 <==> flags & 4 != 0,
        (carried as u32) & 8 != 0 <==> flags & 8 != 0,
        (carried as u32) < 16,
{
}

/// A base register keeps its length and its four flags.
pub proof fn law_a_base_register_keeps_its_flags(source: BarEvidence)
    ensures
        ({
            let carried = crate::gpu_portability::portable_bar(source);
            &&& carried.length == source.length
            &&& carried.physical_address == crate::gpu_portability::bar_address(
                source.raw_low,
                source.raw_high,
                source.flags,
            )
            &&& carried.flags & 1 != 0 <==> source.flags & 1 != 0
            &&& carried.flags & 2 != 0 <==> source.flags & 2 != 0
            &&& carried.flags & 4 != 0 <==> source.flags & 4 != 0
            &&& carried.flags & 8 != 0 <==> source.flags & 8 != 0
            &&& carried.flags < 16
        }),
{
    let flags = source.flags;
    let carried = (if flags & 1 != 0 {
        1u64
    } else {
        0u64
    }) | (if flags & 2 != 0 {
        2u64
    } else {
        0u64
    }) | (if flags & 4 != 0 {
        4u64
    } else {
        0u64
    }) | (if flags & 8 != 0 {
        8u64
    } else {
        0u64
    });
    lemma_carried_bar(flags, carried);
}

proof fn lemma_carried_topology(flags: u32, carried: u64)
    by (bit_vector)
    requires
        carried == (if flags & 1 != 0 {
            1u64
        } else {
            0u64
        }) | (if flags & 8 != 0 {
            2u64
        } else {
            0u64
        }) | (if flags & 16 != 0 {
            4u64
        } else {
            0u64
        }) | (if flags & 32 != 0 {
            8u64
        } else {
            0u64
        }) | (if flags & 128 != 0 {
            16u64
        } else {
            0u64
        }) | (if flags & 64 != 0 {
            32u64
        } else {
            0u64
        }) | (if flags & ((1u32 << 8u32) | (1u32 << 9u32)) == 0 {
            64u64
        } else {
            0u64
        }),
    ensures
        (1u32 << 0u32) == 1,
        (1u32 << 3u32) == 8,
        (1u32 << 4u32) == 16,
        (1u32 << 5u32) == 32,
        (1u32 << 6u32) == 64,
        (1u32 << 7u32) == 128,
        carried & 1 != 0 <==> flags & 1 != 0,
        carried & 2 != 0 <==> flags & 8 != 0,
        carried & 4 != 0 <==> flags & 16 != 0,
        carried & 8 != 0 <==> flags & 32 != 0,
        carried & 16 != 0 <==> flags & 128 != 0,
        carried & 32 != 0 <==> flags & 64 != 0,
        carried & 64 != 0 <==> flags & 256 == 0 && flags & 512 == 0,
        carried < 128,
{
}

/// The topology is carried flag by flag: the boot display, remapping present and
/// isolating, the firmware's framebuffer, a virtual machine, a hotplug port, and
/// an inventory that neither overflowed nor was left incomplete.
pub proof fn law_topology_is_carried_flag_by_flag(flags: u32)
    ensures
        ({
            let carried = crate::gpu_portability::portable_topology(flags);
            &&& carried & 1 != 0 <==> flags & 1 != 0
            &&& carried & 2 != 0 <==> flags & 8 != 0
            &&& carried & 4 != 0 <==> flags & 16 != 0
            &&& carried & 8 != 0 <==> flags & 32 != 0
            &&& carried & 16 != 0 <==> flags & 128 != 0
            &&& carried & 32 != 0 <==> flags & 64 != 0
            &&& carried & 64 != 0 <==> flags & 256 == 0 && flags & 512 == 0
            &&& carried < 128
        }),
{
    let carried = (if flags & 1 != 0 {
        1u64
    } else {
        0u64
    }) | (if flags & 8 != 0 {
        2u64
    } else {
        0u64
    }) | (if flags & 16 != 0 {
        4u64
    } else {
        0u64
    }) | (if flags & 32 != 0 {
        8u64
    } else {
        0u64
    }) | (if flags & 128 != 0 {
        16u64
    } else {
        0u64
    }) | (if flags & 64 != 0 {
        32u64
    } else {
        0u64
    }) | (if flags & ((1u32 << 8u32) | (1u32 << 9u32)) == 0 {
        64u64
    } else {
        0u64
    });
    lemma_carried_topology(flags, carried);
}

/// Evidence is carried whole: the identity and the registers in their order, the
/// capability flags both as such and as features, the surface if it is usable.
pub proof fn law_evidence_is_carried_whole(fingerprint: &GpuFingerprint, i: int)
    requires
        0 <= i < 6,
    ensures
        ({
            let carried = crate::gpu_portability::portable_evidence(fingerprint);
            let surface = fingerprint.firmware_framebuffer;
            &&& carried.identity.segment == fingerprint.segment
            &&& carried.identity.bus == fingerprint.bus
            &&& carried.identity.slot == fingerprint.slot
            &&& carried.identity.function == fingerprint.function
            &&& carried.identity.revision == fingerprint.revision
            &&& carried.identity.vendor_id == fingerprint.vendor_id
            &&& carried.identity.device_id == fingerprint.device_id
            &&& carried.identity.subsystem_vendor_id == fingerprint.subsystem_vendor_id
            &&& carried.identity.subsystem_device_id == fingerprint.subsystem_device_id
            &&& carried.identity.class_code == fingerprint.class_code
            &&& carried.identity.subclass == fingerprint.subclass
            &&& carried.identity.programming_interface == fingerprint.programming_interface
            &&& carried.bars[i].length == fingerprint.bars[i].length
            &&& carried.bars[i].physical_address == crate::gpu_portability::bar_address(
                fingerprint.bars[i].raw_low,
                fingerprint.bars[i].raw_high,
                fingerprint.bars[i].flags,
            )
            &&& carried.capability_flags == fingerprint.capability_flags
            &&& carried.observed_features == fingerprint.capability_flags
            &&& carried.topology_flags == crate::gpu_portability::portable_topology(
                fingerprint.topology_flags,
            )
            &&& carried.evidence_root == fingerprint.evidence_root
            &&& surface.usable() ==> carried.firmware_surface.physical_address
                == surface.physical_address && carried.firmware_surface.byte_length
                == surface.byte_length && carried.firmware_surface.width == surface.width
                && carried.firmware_surface.height == surface.height
                && carried.firmware_surface.pitch == surface.pitch
                && carried.firmware_surface.format == surface.format
            &&& !surface.usable() ==> carried.firmware_surface.byte_length == 0
        }),
{
}

/// Every driver of a vendor asks for that vendor; the surface asks for none, and
/// what is quarantined has no driver. No two drivers share their number.
pub proof fn law_manifests_name_their_vendor(one: DriverStrategy, other: DriverStrategy)
    ensures
        ({
            let vendor = |strategy: DriverStrategy|
                crate::gpu_portability::manifest_for(strategy)->0.vendor_id;
            &&& crate::gpu_portability::manifest_for(one) is None <==> one
                == DriverStrategy::Quarantine
            &&& vendor(DriverStrategy::HermesNvidia) == 0x10de
            &&& vendor(DriverStrategy::AmdDisplay) == 0x1002
            &&& vendor(DriverStrategy::IntelDisplay) == 0x8086
            &&& vendor(DriverStrategy::VirtioGpu) == 0x1af4
            &&& vendor(DriverStrategy::VirtualSvga) == 0x15ad
            &&& vendor(DriverStrategy::FirmwareFramebuffer) == 0xffff
            &&& (one != other && one != DriverStrategy::Quarantine && other
                != DriverStrategy::Quarantine) ==> crate::gpu_portability::manifest_for(
                one,
            )->0.driver_id != crate::gpu_portability::manifest_for(other)->0.driver_id
        }),
{
}

/// An accepted proof is resolved for its strategy; a rejected one is handed back.
pub proof fn law_only_accepted_proofs_resolve(
    secret: u64,
    strategy: DriverStrategy,
    evidence_root: u64,
    proof: GpuCompatibilityProof,
)
    ensures
        crate::gpu_portability::resolution_of(secret, strategy, evidence_root, proof) matches Ok(
            resolution,
        ) ==> proof.accepted && resolution.strategy == strategy && resolution.proof == proof,
        crate::gpu_portability::resolution_of(secret, strategy, evidence_root, proof) matches Err(
            fault,
        ) ==> !proof.accepted && fault == PortabilityFault::Rejected(proof),
{
}

/// A choice is one of the resolutions, and no other scores as high.
pub proof fn law_a_choice_leads_alone(
    results: Seq<Result<PortabilityResolution, PortabilityFault>>,
    i: int,
    j: int,
)
    requires
        0 <= i < j < results.len(),
        results[i] is Ok,
        results[j] is Ok,
        results[i]->Ok_0.proof.score_q16 == results[j]->Ok_0.proof.score_q16,
    ensures
        crate::gpu_portability::choice_of(results) matches Ok(chosen) ==> chosen.proof.score_q16
            > results[i]->Ok_0.proof.score_q16,
{
    lemma_leader(results, i, j);
}

proof fn lemma_leader(
    results: Seq<Result<PortabilityResolution, PortabilityFault>>,
    i: int,
    j: int,
)
    requires
        0 <= i <= j < results.len(),
        results[i] is Ok,
        results[j] is Ok,
        results[i]->Ok_0.proof.score_q16 == results[j]->Ok_0.proof.score_q16,
    ensures
        ({
            let (leader, tied) = crate::gpu_portability::leader_of(results);
            &&& leader is Some
            &&& leader->0.proof.score_q16 >= results[i]->Ok_0.proof.score_q16
            &&& i < j && leader->0.proof.score_q16 == results[i]->Ok_0.proof.score_q16 ==> tied
        }),
    decreases results.len(),
{
    let rest = results.drop_last();
    if j < results.len() - 1 {
        assert(rest[i] == results[i] && rest[j] == results[j]);
        lemma_leader(rest, i, j);
    } else if i < results.len() - 1 {
        assert(rest[i] == results[i]);
        lemma_leader(rest, i, i);
    }
}

/// A command carries its payload from the first byte and is filled up with zeros.
pub proof fn law_a_command_carries_its_payload(
    correlation: (u32, u32),
    opcode: u32,
    flags: u32,
    object: u64,
    arguments: Seq<u64>,
    payload: Seq<u8>,
    deadline_tick: u64,
    i: int,
)
    requires
        payload.len() <= 256,
        0 <= i < 256,
    ensures
        ({
            let shape = crate::hermes_abi::shape_with(
                correlation,
                opcode,
                flags,
                object,
                arguments,
                payload,
                deadline_tick,
            );
            &&& shape.epoch == correlation.0
            &&& shape.sequence == correlation.1
            &&& shape.opcode == opcode
            &&& shape.flags == flags
            &&& shape.object == object
            &&& shape.arguments == arguments
            &&& shape.deadline_tick == deadline_tick
            &&& shape.payload_length == payload.len()
            &&& shape.payload.len() == 256
            &&& i < payload.len() ==> shape.payload[i] == payload[i]
            &&& i >= payload.len() ==> shape.payload[i] == 0
        }),
{
}

/// There are 32 slots of 8 functions on a bus.
pub proof fn law_an_address_names_a_slot_and_a_function(bus: u8, slot: u8, function: u8)
    ensures
        PciAddress::new(bus, slot, function) is Some <==> slot < 32 && function < 8,
        PciAddress::new(bus, slot, function) matches Some(address) ==> address.bus == bus
            && address.slot == slot && address.function == function,
{
}

/// A range lies at its offset behind the base and ends inside the aperture.
pub proof fn law_a_range_lies_at_its_offset(lease: Bar0ApertureLease, offset: u64, length: usize)
    ensures
        lease.checked_range(offset, length) matches Ok(range) ==> range.physical_address
            - lease.physical_base == offset && range.length == length && 0 < length && offset
            + length <= lease.length,
        0 < length && offset + length <= lease.length && lease.physical_base + offset <= u64::MAX
            ==> lease.checked_range(offset, length) is Ok,
{
}

/// A network driver is taken exactly if it speaks the version, is large enough and
/// has all that it needs.
pub proof fn law_which_network_drivers_are_taken(descriptor: NetworkDescriptor, minimum_size: u32)
    ensures
        crate::net::descriptor_fault(descriptor, minimum_size) is None <==> descriptor.abi_version
            == 1 && descriptor.struct_size >= minimum_size && descriptor.has_context
            && descriptor.has_transmit && descriptor.has_receive
            && descriptor.maximum_transmission_unit > 0,
        crate::net::descriptor_fault(descriptor, minimum_size) == Some(-6i32)
            <==> descriptor.abi_version != 1 || descriptor.struct_size < minimum_size,
        crate::net::descriptor_fault(descriptor, minimum_size) matches Some(status) ==> status == -6
            || status == -1,
{
}

/// Nothing to receive is no packet, a packet is told by its length, and any other
/// status is handed on.
pub proof fn law_a_received_packet_is_told_by_its_length(
    status: i32,
    packet_length: usize,
    capacity: usize,
)
    ensures
        crate::net::settle_receive(status, packet_length, capacity) == Ok::<_, i32>(None::<usize>)
            <==> status == -2,
        crate::net::settle_receive(status, packet_length, capacity) == Ok::<_, i32>(
            Some(packet_length),
        ) <==> status == 0 && packet_length <= capacity,
        status != 0 && status != -2 ==> crate::net::settle_receive(status, packet_length, capacity)
            == Err::<Option<usize>, _>(status),
{
}

/// A function that nothing was recorded of has no topology.
pub proof fn law_unrecorded_functions_have_no_topology(
    records: Seq<TopologyRecord>,
    address: PciFunctionAddress,
)
    requires
        !crate::drivernet::topology::records_address(records, address),
    ensures
        crate::drivernet::topology::recorded_evidence(records, address)
            == TopologyEvidence::empty(),
    decreases records.len(),
{
    if records.len() > 0 {
        assert(records[0].address != address);
        assert forall|i: int| 0 <= i < records.skip(1).len() implies #[trigger] records.skip(
            1,
        )[i].address != address by {
            assert(records[i + 1].address != address);
        }
        law_unrecorded_functions_have_no_topology(records.skip(1), address);
    }
}

} // verus!
