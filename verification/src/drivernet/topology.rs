//! What the boot tables say of where each function sits.

use super::fingerprint::{
    FirmwareFramebufferEvidence, PciFunctionAddress, TopologyEvidence, TopologyEvidenceProvider,
};
use super::inventory::PciFunctionRecord;
use vstd::prelude::*;

verus! {

#[derive(Clone, Copy, Debug, PartialEq, Eq)]
pub struct TopologyRecord {
    pub address: PciFunctionAddress,
    pub evidence: TopologyEvidence,
}

#[derive(Clone, Copy, Debug, PartialEq, Eq, Structural)]
pub enum TopologyTableError {
    ZeroCapacity,
    Capacity,
    DuplicateAddress,
    InvalidFirmwareFramebuffer,
}

pub open spec fn records_address(
    records: Seq<TopologyRecord>,
    address: PciFunctionAddress,
) -> bool {
    exists|i: int| 0 <= i < records.len() && #[trigger] records[i].address == address
}

pub open spec fn records_each_once(records: Seq<TopologyRecord>) -> bool {
    forall|i: int, j: int|
        0 <= i < j < records.len() ==> #[trigger] records[i].address
            != #[trigger] records[j].address
}

/// The evidence recorded for an address; nothing where none was recorded.
pub open spec fn recorded_evidence(
    records: Seq<TopologyRecord>,
    address: PciFunctionAddress,
) -> TopologyEvidence
    decreases records.len(),
{
    if records.len() == 0 {
        TopologyEvidence::empty()
    } else if records[0].address == address {
        records[0].evidence
    } else {
        recorded_evidence(records.skip(1), address)
    }
}

/// Boot topology records, one per address, and the boot framebuffer.
pub struct BootTopologyTable<const N: usize> {
    records: Vec<TopologyRecord>,
    firmware: FirmwareFramebufferEvidence,
}

impl<const N: usize> BootTopologyTable<N> {
    pub closed spec fn view(&self) -> Seq<TopologyRecord> {
        self.records@
    }

    pub closed spec fn firmware(&self) -> FirmwareFramebufferEvidence {
        self.firmware
    }

    pub open spec fn wf(&self) -> bool {
        &&& 0 < N
        &&& self@.len() <= N
        &&& records_each_once(self@)
        &&& self.firmware() == FirmwareFramebufferEvidence::none() || self.firmware().usable()
    }

    pub fn new() -> (result: Result<Self, TopologyTableError>)
        ensures
            match result {
                Ok(table) => {
                    &&& N > 0
                    &&& table.wf()
                    &&& table@ == Seq::<TopologyRecord>::empty()
                    &&& table.firmware() == FirmwareFramebufferEvidence::none()
                },
                Err(error) => N == 0 && error == TopologyTableError::ZeroCapacity,
            },
    {
        if N == 0 {
            return Err(TopologyTableError::ZeroCapacity);
        }
        Ok(
            BootTopologyTable {
                records: Vec::new(),
                firmware: FirmwareFramebufferEvidence::none(),
            },
        )
    }

    pub fn insert(&mut self, record: TopologyRecord) -> (result: Result<(), TopologyTableError>)
        requires
            old(self).wf(),
        ensures
            final(self).wf(),
            final(self).firmware() == old(self).firmware(),
            result == (if records_address(old(self)@, record.address) {
                Err(TopologyTableError::DuplicateAddress)
            } else if old(self)@.len() >= N {
                Err(TopologyTableError::Capacity)
            } else {
                Ok::<(), TopologyTableError>(())
            }),
            final(self)@ == (if result is Ok {
                old(self)@.push(record)
            } else {
                old(self)@
            }),
    {
        let mut index: usize = 0;
        while index < self.records.len()
            invariant
                index <= self@.len(),
                self@ == self.records@,
                *self == *old(self),
                old(self).wf(),
                forall|i: int| 0 <= i < index ==> #[trigger] self@[i].address != record.address,
            decreases self@.len() - index,
        {
            if self.records[index].address == record.address {
                assert(self@[index as int].address == record.address);
                return Err(TopologyTableError::DuplicateAddress);
            }
            index += 1;
        }
        if self.records.len() >= N {
            return Err(TopologyTableError::Capacity);
        }
        self.records.push(record);
        Ok(())
    }

    pub fn set_firmware_framebuffer(&mut self, firmware: FirmwareFramebufferEvidence) -> (result:
        Result<(), TopologyTableError>)
        requires
            old(self).wf(),
        ensures
            final(self).wf(),
            final(self)@ == old(self)@,
            result == (if firmware.usable() {
                Ok::<(), TopologyTableError>(())
            } else {
                Err(TopologyTableError::InvalidFirmwareFramebuffer)
            }),
            final(self).firmware() == (if firmware.usable() {
                firmware
            } else {
                old(self).firmware()
            }),
    {
        if !firmware.usable() {
            return Err(TopologyTableError::InvalidFirmwareFramebuffer);
        }
        self.firmware = firmware;
        Ok(())
    }

    fn recorded(&self, address: PciFunctionAddress) -> (evidence: TopologyEvidence)
        ensures
            evidence == recorded_evidence(self@, address),
    {
        let mut index: usize = 0;
        assert(self@.skip(0) =~= self@);
        while index < self.records.len()
            invariant
                index <= self@.len(),
                self@ == self.records@,
                recorded_evidence(self@, address) == recorded_evidence(
                    self@.skip(index as int),
                    address,
                ),
            decreases self@.len() - index,
        {
            proof {
                let rest = self@.skip(index as int);
                assert(rest[0] == self@[index as int]);
                assert(rest.skip(1) =~= self@.skip(index + 1));
            }
            if self.records[index].address == address {
                return self.records[index].evidence;
            }
            index += 1;
        }
        TopologyEvidence::empty()
    }

    pub fn records(&self) -> (records: &[TopologyRecord])
        ensures
            records@ == self@,
    {
        self.records.as_slice()
    }

    pub fn len(&self) -> (length: usize)
        ensures
            length == self@.len(),
    {
        self.records.len()
    }

    pub fn is_empty(&self) -> (empty: bool)
        ensures
            empty == (self@.len() == 0),
    {
        self.records.len() == 0
    }
}

impl<const N: usize> TopologyEvidenceProvider for BootTopologyTable<N> {
    /// The recorded evidence; the owner of the boot framebuffer gets it where
    /// its record names none.
    open spec fn topology_of(&self, function: PciFunctionRecord) -> TopologyEvidence {
        let recorded = recorded_evidence(self@, function.address);
        if recorded.firmware_framebuffer == FirmwareFramebufferEvidence::none()
            && self.firmware().owner == Some(function.address) {
            TopologyEvidence { firmware_framebuffer: self.firmware(), ..recorded }
        } else {
            recorded
        }
    }

    open spec fn boot_framebuffer(&self) -> FirmwareFramebufferEvidence {
        self.firmware()
    }

    fn evidence_for(&self, function: &PciFunctionRecord) -> (evidence: TopologyEvidence) {
        let mut evidence = self.recorded(function.address);
        let owned = match self.firmware.owner {
            Some(owner) => owner == function.address,
            None => false,
        };
        if evidence.firmware_framebuffer == FirmwareFramebufferEvidence::none() && owned {
            evidence.firmware_framebuffer = self.firmware;
        }
        evidence
    }

    fn firmware_framebuffer(&self) -> (evidence: FirmwareFramebufferEvidence) {
        self.firmware
    }
}

/// A table answers for a recorded address with that record, whatever else it
/// holds.
pub proof fn law_a_record_is_found_again(records: Seq<TopologyRecord>, at: int)
    requires
        records_each_once(records),
        0 <= at < records.len(),
    ensures
        recorded_evidence(records, records[at].address) == records[at].evidence,
    decreases records.len(),
{
    if at > 0 {
        assert(records[0].address != records[at].address);
        let rest = records.skip(1);
        assert(rest[at - 1] == records[at]);
        assert forall|i: int, j: int| 0 <= i < j < rest.len() implies #[trigger] rest[i].address
            != #[trigger] rest[j].address by {
            assert(records[i + 1].address != records[j + 1].address);
        }
        law_a_record_is_found_again(rest, at - 1);
    }
}

} // verus!
