//! The display functions of a machine, each address once.

use super::fingerprint::{
    ConfigurationEvent, ConfigurationTrace, FingerprintError, PciConfigReader,
    PciFunctionAddress, PCI_CLASS_DISPLAY,
};
use crate::pci::{PciDevice, PciInventory};
use vstd::prelude::*;

verus! {

pub const MAXIMUM_DISPLAY_FUNCTIONS: usize = 64;

pub const MULTIFUNCTION_HEADER: u8 = 1 << 7;

#[derive(Clone, Copy, Debug, PartialEq, Eq)]
pub struct PciBusRange {
    pub segment: u16,
    pub bus_start: u8,
    pub bus_end: u8,
}

impl PciBusRange {
    #[verifier::allow_in_spec]
    pub fn valid(self) -> bool
        returns
            self.bus_start <= self.bus_end,
    {
        self.bus_start <= self.bus_end
    }
}

#[derive(Clone, Copy, Debug, PartialEq, Eq)]
pub struct PciFunctionRecord {
    pub address: PciFunctionAddress,
    pub vendor_id: u16,
    pub device_id: u16,
    pub class_code: u8,
    pub subclass: u8,
    pub programming_interface: u8,
    pub revision: u8,
    pub header_type: u8,
    pub interrupt_line: u8,
    pub interrupt_pin: u8,
}

impl PciFunctionRecord {
    #[verifier::allow_in_spec]
    pub fn is_display(self) -> bool
        returns
            self.class_code == PCI_CLASS_DISPLAY,
    {
        self.class_code == PCI_CLASS_DISPLAY
    }
}

#[derive(Clone, Copy, Debug, PartialEq, Eq, Structural)]
pub enum InventoryError {
    ZeroCapacity,
    Capacity,
    DuplicateAddress,
    InvalidRange,
}

/// What an inventory holds and what it has noticed.
pub struct InventoryModel {
    pub functions: Seq<PciFunctionRecord>,
    pub overflowed: bool,
    pub faults: u32,
}

pub open spec fn lists_address(
    functions: Seq<PciFunctionRecord>,
    address: PciFunctionAddress,
) -> bool {
    exists|i: int| 0 <= i < functions.len() && #[trigger] functions[i].address == address
}

pub open spec fn lists_each_once(functions: Seq<PciFunctionRecord>) -> bool {
    forall|i: int, j: int|
        0 <= i < j < functions.len() ==> #[trigger] functions[i].address
            != #[trigger] functions[j].address
}

/// The model after a function was offered: an address that is listed stays as
/// it was, and a function for which no room is left marks the overflow.
pub open spec fn offered(
    model: InventoryModel,
    function: PciFunctionRecord,
    capacity: int,
) -> InventoryModel {
    if lists_address(model.functions, function.address) {
        model
    } else if model.functions.len() >= capacity {
        InventoryModel { overflowed: true, ..model }
    } else {
        InventoryModel { functions: model.functions.push(function), ..model }
    }
}

/// The same, for a display function only.
pub open spec fn offered_display(
    model: InventoryModel,
    function: PciFunctionRecord,
    capacity: int,
) -> InventoryModel {
    if function.is_display() {
        offered(model, function, capacity)
    } else {
        model
    }
}

/// The record that a legacy scan gives of a function.
#[verifier::allow_in_spec]
pub fn legacy_record(device: PciDevice) -> PciFunctionRecord
    returns
        (PciFunctionRecord {
            address: PciFunctionAddress {
                segment: 0,
                bus: device.address.bus,
                slot: device.address.slot,
                function: device.address.function,
            },
            vendor_id: device.vendor_id,
            device_id: device.device_id,
            class_code: device.class_code,
            subclass: device.subclass,
            programming_interface: device.programming_interface,
            revision: device.revision,
            header_type: device.header_type,
            interrupt_line: device.interrupt_line,
            interrupt_pin: device.interrupt_pin,
        }),
{
    PciFunctionRecord {
        address: PciFunctionAddress {
            segment: 0,
            bus: device.address.bus,
            slot: device.address.slot,
            function: device.address.function,
        },
        vendor_id: device.vendor_id,
        device_id: device.device_id,
        class_code: device.class_code,
        subclass: device.subclass,
        programming_interface: device.programming_interface,
        revision: device.revision,
        header_type: device.header_type,
        interrupt_line: device.interrupt_line,
        interrupt_pin: device.interrupt_pin,
    }
}

/// The model after the first `upto` functions of a legacy scan were offered.
pub open spec fn imported(
    model: InventoryModel,
    devices: Seq<PciDevice>,
    upto: int,
    capacity: int,
) -> InventoryModel
    decreases upto,
{
    if upto <= 0 {
        model
    } else {
        offered_display(
            imported(model, devices, upto - 1, capacity),
            legacy_record(devices[upto - 1]),
            capacity,
        )
    }
}

/// One more configuration fault, as far as the counter can count.
pub open spec fn faulted(model: InventoryModel) -> InventoryModel {
    InventoryModel {
        faults: if model.faults == u32::MAX {
            u32::MAX
        } else {
            (model.faults + 1) as u32
        },
        ..model
    }
}

/// The record that four configuration words describe.
#[verifier::allow_in_spec]
pub fn decode_function(
    address: PciFunctionAddress,
    vendor_device: u32,
    class_revision: u32,
    header: u32,
    interrupt: u32,
) -> PciFunctionRecord
    returns
        (PciFunctionRecord {
            address,
            vendor_id: vendor_device as u16,
            device_id: (vendor_device >> 16) as u16,
            class_code: (class_revision >> 24) as u8,
            subclass: (class_revision >> 16) as u8,
            programming_interface: (class_revision >> 8) as u8,
            revision: class_revision as u8,
            header_type: (header >> 16) as u8,
            interrupt_line: interrupt as u8,
            interrupt_pin: (interrupt >> 8) as u8,
        }),
{
    PciFunctionRecord {
        address,
        vendor_id: vendor_device as u16,
        device_id: (vendor_device >> 16) as u16,
        class_code: (class_revision >> 24) as u8,
        subclass: (class_revision >> 16) as u8,
        programming_interface: (class_revision >> 8) as u8,
        revision: class_revision as u8,
        header_type: (header >> 16) as u8,
        interrupt_line: interrupt as u8,
        interrupt_pin: (interrupt >> 8) as u8,
    }
}

/// Whether a vendor word says that a function is there.
#[verifier::allow_in_spec]
pub fn function_present(vendor_device: u32) -> bool
    returns
        vendor_device as u16 != 0xffff && vendor_device as u16 != 0,
{
    vendor_device as u16 != 0xffff && vendor_device as u16 != 0
}

/// One function as a transcript answers for it. Every failed read counts as a
/// fault; only the interrupt word may fail without losing the function.
pub open spec fn function_read(
    model: InventoryModel,
    address: PciFunctionAddress,
    log: Seq<ConfigurationEvent>,
    at: int,
) -> Option<(Option<PciFunctionRecord>, InventoryModel, int)> {
    match super::fingerprint::word_at(log, at, address, 0x00) {
        None => None,
        Some(Err(_)) => Some((None, faulted(model), at + 1)),
        Some(Ok(vendor_device)) => if !function_present(vendor_device) {
            Some((None, model, at + 1))
        } else {
            match super::fingerprint::word_at(log, at + 1, address, 0x08) {
                None => None,
                Some(Err(_)) => Some((None, faulted(model), at + 2)),
                Some(Ok(class_revision)) => match super::fingerprint::word_at(
                    log,
                    at + 2,
                    address,
                    0x0c,
                ) {
                    None => None,
                    Some(Err(_)) => Some((None, faulted(model), at + 3)),
                    Some(Ok(header)) => match super::fingerprint::word_at(
                        log,
                        at + 3,
                        address,
                        0x3c,
                    ) {
                        None => None,
                        Some(Err(_)) => Some(
                            (
                                Some(
                                    decode_function(
                                        address,
                                        vendor_device,
                                        class_revision,
                                        header,
                                        0xff,
                                    ),
                                ),
                                faulted(model),
                                at + 4,
                            ),
                        ),
                        Some(Ok(interrupt)) => Some(
                            (
                                Some(
                                    decode_function(
                                        address,
                                        vendor_device,
                                        class_revision,
                                        header,
                                        interrupt,
                                    ),
                                ),
                                model,
                                at + 4,
                            ),
                        ),
                    },
                },
            }
        },
    }
}

/// The functions of one slot from `function` on; function zero says whether
/// there are more.
pub open spec fn functions_read(
    model: InventoryModel,
    capacity: int,
    segment: u16,
    bus: u8,
    slot: u8,
    function: int,
    log: Seq<ConfigurationEvent>,
    at: int,
) -> Option<(InventoryModel, int)>
    decreases 8 - function,
{
    if function >= 8 {
        Some((model, at))
    } else {
        match function_read(
            model,
            PciFunctionAddress { segment, bus, slot, function: function as u8 },
            log,
            at,
        ) {
            None => None,
            Some((None, next, end)) => if function == 0 {
                Some((next, end))
            } else {
                functions_read(next, capacity, segment, bus, slot, function + 1, log, end)
            },
            Some((Some(record), next, end)) => {
                let after = offered_display(next, record, capacity);
                if function == 0 && record.header_type & MULTIFUNCTION_HEADER == 0 {
                    Some((after, end))
                } else {
                    functions_read(after, capacity, segment, bus, slot, function + 1, log, end)
                }
            },
        }
    }
}

/// The slots of one bus from `slot` on.
pub open spec fn slots_read(
    model: InventoryModel,
    capacity: int,
    segment: u16,
    bus: u8,
    slot: int,
    log: Seq<ConfigurationEvent>,
    at: int,
) -> Option<(InventoryModel, int)>
    decreases 32 - slot,
{
    if slot >= 32 {
        Some((model, at))
    } else {
        match functions_read(model, capacity, segment, bus, slot as u8, 0, log, at) {
            None => None,
            Some((next, end)) => slots_read(next, capacity, segment, bus, slot + 1, log, end),
        }
    }
}

/// The buses of a range from `bus` on.
pub open spec fn buses_read(
    model: InventoryModel,
    capacity: int,
    range: PciBusRange,
    bus: int,
    log: Seq<ConfigurationEvent>,
    at: int,
) -> Option<(InventoryModel, int)>
    decreases range.bus_end + 1 - bus,
{
    if bus > range.bus_end {
        Some((model, at))
    } else {
        match slots_read(model, capacity, range.segment, bus as u8, 0, log, at) {
            None => None,
            Some((next, end)) => buses_read(next, capacity, range, bus + 1, log, end),
        }
    }
}

/// The ranges from `index` on, up to the first that is not valid.
pub open spec fn ranges_read(
    model: InventoryModel,
    capacity: int,
    ranges: Seq<PciBusRange>,
    index: int,
    log: Seq<ConfigurationEvent>,
    at: int,
) -> Option<(Result<(), InventoryError>, InventoryModel, int)>
    decreases ranges.len() - index,
{
    if index >= ranges.len() {
        Some((Ok(()), model, at))
    } else if !ranges[index].valid() {
        Some((Err(InventoryError::InvalidRange), model, at))
    } else {
        match buses_read(
            model,
            capacity,
            ranges[index],
            ranges[index].bus_start as int,
            log,
            at,
        ) {
            None => None,
            Some((next, end)) => ranges_read(next, capacity, ranges, index + 1, log, end),
        }
    }
}

pub struct DisplayFunctionInventory<const N: usize> {
    functions: Vec<PciFunctionRecord>,
    overflowed: bool,
    configuration_faults: u32,
}

impl<const N: usize> DisplayFunctionInventory<N> {
    pub closed spec fn model(&self) -> InventoryModel {
        InventoryModel {
            functions: self.functions@,
            overflowed: self.overflowed,
            faults: self.configuration_faults,
        }
    }

    pub open spec fn view(&self) -> Seq<PciFunctionRecord> {
        self.model().functions
    }

    pub open spec fn wf(&self) -> bool {
        &&& 0 < N
        &&& self@.len() <= N
        &&& lists_each_once(self@)
    }

    pub fn new() -> (result: Result<Self, InventoryError>)
        ensures
            match result {
                Ok(inventory) => N > 0 && inventory.wf() && inventory.model() == (InventoryModel {
                    functions: Seq::empty(),
                    overflowed: false,
                    faults: 0,
                }),
                Err(error) => N == 0 && error == InventoryError::ZeroCapacity,
            },
    {
        if N == 0 {
            return Err(InventoryError::ZeroCapacity);
        }
        Ok(
            DisplayFunctionInventory {
                functions: Vec::new(),
                overflowed: false,
                configuration_faults: 0,
            },
        )
    }

    pub fn functions(&self) -> (functions: &[PciFunctionRecord])
        ensures
            functions@ == self@,
    {
        self.functions.as_slice()
    }

    pub fn len(&self) -> (length: usize)
        ensures
            length == self@.len(),
    {
        self.functions.len()
    }

    pub fn is_empty(&self) -> (empty: bool)
        ensures
            empty == (self@.len() == 0),
    {
        self.functions.len() == 0
    }

    pub fn overflowed(&self) -> (overflowed: bool)
        ensures
            overflowed == self.model().overflowed,
    {
        self.overflowed
    }

    pub fn configuration_faults(&self) -> (faults: u32)
        ensures
            faults == self.model().faults,
    {
        self.configuration_faults
    }

    pub fn insert(&mut self, function: PciFunctionRecord) -> (result: Result<(), InventoryError>)
        requires
            old(self).wf(),
        ensures
            final(self).wf(),
            final(self).model() == offered(old(self).model(), function, N as int),
            result == (if lists_address(old(self)@, function.address) {
                Err(InventoryError::DuplicateAddress)
            } else if old(self)@.len() >= N {
                Err(InventoryError::Capacity)
            } else {
                Ok::<(), InventoryError>(())
            }),
    {
        let mut index: usize = 0;
        while index < self.functions.len()
            invariant
                index <= self@.len(),
                self@ == self.functions@,
                *self == *old(self),
                old(self).wf(),
                forall|i: int|
                    0 <= i < index ==> #[trigger] self@[i].address != function.address,
            decreases self@.len() - index,
        {
            if self.functions[index].address == function.address {
                assert(self@[index as int].address == function.address);
                return Err(InventoryError::DuplicateAddress);
            }
            index += 1;
        }
        if self.functions.len() >= N {
            self.overflowed = true;
            return Err(InventoryError::Capacity);
        }
        self.functions.push(function);
        Ok(())
    }

    pub fn import_legacy(&mut self, inventory: &PciInventory) -> (result: Result<
        (),
        InventoryError,
    >)
        requires
            old(self).wf(),
        ensures
            final(self).wf(),
            result == Ok::<(), InventoryError>(()),
            ({
                let offered = imported(
                    old(self).model(),
                    inventory.devices@,
                    inventory.devices@.len() as int,
                    N as int,
                );
                final(self).model() == (InventoryModel {
                    overflowed: offered.overflowed || inventory.overflowed,
                    ..offered
                })
            }),
    {
        let devices = inventory.devices();
        let mut index: usize = 0;
        while index < devices.len()
            invariant
                index <= devices@.len(),
                devices@ == inventory.devices@,
                self.wf(),
                self.model() == imported(
                    old(self).model(),
                    devices@,
                    index as int,
                    N as int,
                ),
            decreases devices@.len() - index,
        {
            self.insert_if_display(legacy_record(devices[index]));
            index += 1;
        }
        self.overflowed = self.overflowed || inventory.overflowed();
        Ok(())
    }

    fn insert_if_display(&mut self, function: PciFunctionRecord)
        requires
            old(self).wf(),
        ensures
            final(self).wf(),
            final(self).model() == offered_display(old(self).model(), function, N as int),
    {
        if function.is_display() {
            match self.insert(function) {
                Ok(()) => {},
                Err(_) => {},
            }
        }
    }

    fn note_fault(&mut self)
        requires
            old(self).wf(),
        ensures
            final(self).wf(),
            final(self).model() == faulted(old(self).model()),
    {
        self.configuration_faults = self.configuration_faults.saturating_add(1);
    }

    pub fn read_function<C: PciConfigReader>(
        &mut self,
        address: PciFunctionAddress,
        configuration: &mut ConfigurationTrace<C>,
    ) -> (record: Option<PciFunctionRecord>)
        requires
            old(self).wf(),
        ensures
            final(self).wf(),
            crate::trace::continues(final(configuration).log(), old(configuration).log()),
            forall|log: Seq<ConfigurationEvent>| #[trigger]
                crate::trace::continues(log, final(configuration).log()) ==> function_read(
                    old(self).model(),
                    address,
                    log,
                    old(configuration).log().len() as int,
                ) == Some(
                    (record, final(self).model(), final(configuration).log().len() as int),
                ),
    {
        let ghost start = configuration.log();
        let vendor_device: u32 = match configuration.read_u32(address, 0x00) {
            Ok(value) => value,
            Err(_) => {
                self.note_fault();
                assert forall|log: Seq<ConfigurationEvent>| #[trigger]
                    crate::trace::continues(
                        log,
                        configuration.log(),
                    ) implies log[start.len() as int]
                    == configuration.log()[start.len() as int] by {}
                return None;
            },
        };
        if !function_present(vendor_device) {
            assert forall|log: Seq<ConfigurationEvent>| #[trigger]
                crate::trace::continues(log, configuration.log()) implies log[start.len() as int]
                == configuration.log()[start.len() as int] by {}
            return None;
        }
        let class_revision: u32 = match configuration.read_u32(address, 0x08) {
            Ok(value) => value,
            Err(_) => {
                self.note_fault();
                assert forall|log: Seq<ConfigurationEvent>| #[trigger]
                    crate::trace::continues(log, configuration.log()) implies {
                    &&& log[start.len() as int] == configuration.log()[start.len() as int]
                    &&& log[start.len() as int + 1] == configuration.log()[start.len() as int + 1]
                } by {}
                return None;
            },
        };
        let header: u32 = match configuration.read_u32(address, 0x0c) {
            Ok(value) => value,
            Err(_) => {
                self.note_fault();
                assert forall|log: Seq<ConfigurationEvent>| #[trigger]
                    crate::trace::continues(log, configuration.log()) implies {
                    &&& log[start.len() as int] == configuration.log()[start.len() as int]
                    &&& log[start.len() as int + 1] == configuration.log()[start.len() as int + 1]
                    &&& log[start.len() as int + 2] == configuration.log()[start.len() as int + 2]
                } by {}
                return None;
            },
        };
        let interrupt: u32 = match configuration.read_u32(address, 0x3c) {
            Ok(value) => value,
            Err(_) => {
                self.note_fault();
                0xff
            },
        };
        assert forall|log: Seq<ConfigurationEvent>| #[trigger]
            crate::trace::continues(log, configuration.log()) implies {
            &&& log[start.len() as int] == configuration.log()[start.len() as int]
            &&& log[start.len() as int + 1] == configuration.log()[start.len() as int + 1]
            &&& log[start.len() as int + 2] == configuration.log()[start.len() as int + 2]
            &&& log[start.len() as int + 3] == configuration.log()[start.len() as int + 3]
        } by {}
        Some(decode_function(address, vendor_device, class_revision, header, interrupt))
    }

    fn discover_slot<C: PciConfigReader>(
        &mut self,
        segment: u16,
        bus: u8,
        slot: u8,
        configuration: &mut ConfigurationTrace<C>,
    )
        requires
            old(self).wf(),
        ensures
            final(self).wf(),
            crate::trace::continues(final(configuration).log(), old(configuration).log()),
            forall|log: Seq<ConfigurationEvent>| #[trigger]
                crate::trace::continues(log, final(configuration).log()) ==> functions_read(
                    old(self).model(),
                    N as int,
                    segment,
                    bus,
                    slot,
                    0,
                    log,
                    old(configuration).log().len() as int,
                ) == Some((final(self).model(), final(configuration).log().len() as int)),
    {
        let ghost start = configuration.log();
        let ghost initial = self.model();
        let mut function: u8 = 0;
        assert(crate::trace::continues(start, start));
        while function < 8
            invariant
                function <= 8,
                self.wf(),
                initial == old(self).model(),
                start == old(configuration).log(),
                crate::trace::continues(configuration.log(), old(configuration).log()),
                start == old(configuration).log(),
                forall|log: Seq<ConfigurationEvent>| #[trigger]
                    crate::trace::continues(log, configuration.log()) ==> functions_read(
                        initial,
                        N as int,
                        segment,
                        bus,
                        slot,
                        0,
                        log,
                        start.len() as int,
                    ) == functions_read(
                        self.model(),
                        N as int,
                        segment,
                        bus,
                        slot,
                        function as int,
                        log,
                        configuration.log().len() as int,
                    ),
            decreases 8 - function,
        {
            let ghost head = configuration.log();
            let address = PciFunctionAddress { segment, bus, slot, function };
            let record = self.read_function(address, configuration);
            proof {
                assert forall|log: Seq<ConfigurationEvent>| #[trigger]
                    crate::trace::continues(
                        log,
                        configuration.log(),
                    ) implies crate::trace::continues(log, head) by {}
            }
            match record {
                Some(found) => {
                    self.insert_if_display(found);
                    if function == 0 && found.header_type & MULTIFUNCTION_HEADER == 0 {
                        return;
                    }
                },
                None => {
                    if function == 0 {
                        return;
                    }
                },
            }
            function += 1;
        }
    }

    fn discover_bus<C: PciConfigReader>(
        &mut self,
        segment: u16,
        bus: u8,
        configuration: &mut ConfigurationTrace<C>,
    )
        requires
            old(self).wf(),
        ensures
            final(self).wf(),
            crate::trace::continues(final(configuration).log(), old(configuration).log()),
            forall|log: Seq<ConfigurationEvent>| #[trigger]
                crate::trace::continues(log, final(configuration).log()) ==> slots_read(
                    old(self).model(),
                    N as int,
                    segment,
                    bus,
                    0,
                    log,
                    old(configuration).log().len() as int,
                ) == Some((final(self).model(), final(configuration).log().len() as int)),
    {
        let ghost start = configuration.log();
        let ghost initial = self.model();
        let mut slot: u8 = 0;
        while slot < 32
            invariant
                slot <= 32,
                self.wf(),
                initial == old(self).model(),
                start == old(configuration).log(),
                crate::trace::continues(configuration.log(), old(configuration).log()),
                start == old(configuration).log(),
                forall|log: Seq<ConfigurationEvent>| #[trigger]
                    crate::trace::continues(log, configuration.log()) ==> slots_read(
                        initial,
                        N as int,
                        segment,
                        bus,
                        0,
                        log,
                        start.len() as int,
                    ) == slots_read(
                        self.model(),
                        N as int,
                        segment,
                        bus,
                        slot as int,
                        log,
                        configuration.log().len() as int,
                    ),
            decreases 32 - slot,
        {
            let ghost head = configuration.log();
            self.discover_slot(segment, bus, slot, configuration);
            proof {
                assert forall|log: Seq<ConfigurationEvent>| #[trigger]
                    crate::trace::continues(
                        log,
                        configuration.log(),
                    ) implies crate::trace::continues(log, head) by {}
            }
            slot += 1;
        }
    }

    fn discover_range<C: PciConfigReader>(
        &mut self,
        range: PciBusRange,
        configuration: &mut ConfigurationTrace<C>,
    )
        requires
            old(self).wf(),
            range.valid(),
        ensures
            final(self).wf(),
            crate::trace::continues(final(configuration).log(), old(configuration).log()),
            forall|log: Seq<ConfigurationEvent>| #[trigger]
                crate::trace::continues(log, final(configuration).log()) ==> buses_read(
                    old(self).model(),
                    N as int,
                    range,
                    range.bus_start as int,
                    log,
                    old(configuration).log().len() as int,
                ) == Some((final(self).model(), final(configuration).log().len() as int)),
    {
        let ghost start = configuration.log();
        let ghost initial = self.model();
        let mut bus: u16 = range.bus_start as u16;
        let last: u16 = range.bus_end as u16;
        while bus <= last
            invariant
                range.bus_start <= bus <= last + 1,
                last == range.bus_end,
                self.wf(),
                initial == old(self).model(),
                start == old(configuration).log(),
                crate::trace::continues(configuration.log(), old(configuration).log()),
                start == old(configuration).log(),
                forall|log: Seq<ConfigurationEvent>| #[trigger]
                    crate::trace::continues(log, configuration.log()) ==> buses_read(
                        initial,
                        N as int,
                        range,
                        range.bus_start as int,
                        log,
                        start.len() as int,
                    ) == buses_read(
                        self.model(),
                        N as int,
                        range,
                        bus as int,
                        log,
                        configuration.log().len() as int,
                    ),
            decreases last + 1 - bus,
        {
            let ghost head = configuration.log();
            self.discover_bus(range.segment, bus as u8, configuration);
            proof {
                assert forall|log: Seq<ConfigurationEvent>| #[trigger]
                    crate::trace::continues(
                        log,
                        configuration.log(),
                    ) implies crate::trace::continues(log, head) by {}
            }
            bus += 1;
        }
    }

    /// Scans the ranges and lists every display function it finds. The first
    /// range that runs backwards ends the scan.
    pub fn discover<C: PciConfigReader>(
        &mut self,
        ranges: &[PciBusRange],
        configuration: &mut ConfigurationTrace<C>,
    ) -> (result: Result<(), InventoryError>)
        requires
            old(self).wf(),
        ensures
            final(self).wf(),
            crate::trace::continues(final(configuration).log(), old(configuration).log()),
            forall|log: Seq<ConfigurationEvent>| #[trigger]
                crate::trace::continues(log, final(configuration).log()) ==> ranges_read(
                    old(self).model(),
                    N as int,
                    ranges@,
                    0,
                    log,
                    old(configuration).log().len() as int,
                ) == Some(
                    (result, final(self).model(), final(configuration).log().len() as int),
                ),
    {
        let ghost start = configuration.log();
        let ghost initial = self.model();
        let mut index: usize = 0;
        while index < ranges.len()
            invariant
                index <= ranges@.len(),
                self.wf(),
                initial == old(self).model(),
                start == old(configuration).log(),
                crate::trace::continues(configuration.log(), old(configuration).log()),
                start == old(configuration).log(),
                forall|log: Seq<ConfigurationEvent>| #[trigger]
                    crate::trace::continues(log, configuration.log()) ==> ranges_read(
                        initial,
                        N as int,
                        ranges@,
                        0,
                        log,
                        start.len() as int,
                    ) == ranges_read(
                        self.model(),
                        N as int,
                        ranges@,
                        index as int,
                        log,
                        configuration.log().len() as int,
                    ),
            decreases ranges@.len() - index,
        {
            let range = ranges[index];
            if !range.valid() {
                return Err(InventoryError::InvalidRange);
            }
            let ghost head = configuration.log();
            self.discover_range(range, configuration);
            proof {
                assert forall|log: Seq<ConfigurationEvent>| #[trigger]
                    crate::trace::continues(
                        log,
                        configuration.log(),
                    ) implies crate::trace::continues(log, head) by {}
            }
            index += 1;
        }
        Ok(())
    }
}

/// Whether a read failed because the mechanism cannot reach the address.
pub fn fingerprint_error_is_absence(error: FingerprintError) -> (absent: bool)
    ensures
        absent == reads_as_absent(error),
{
    match error {
        FingerprintError::UnsupportedPciSegment => true,
        FingerprintError::UnsupportedConfigurationOffset => true,
        _ => false,
    }
}

pub open spec fn reads_as_absent(error: FingerprintError) -> bool {
    error == FingerprintError::UnsupportedPciSegment || error
        == FingerprintError::UnsupportedConfigurationOffset
}

/// Offering functions never loses one, never lists an address twice and never
/// takes the overflow mark back.
pub proof fn law_offers_only_add(
    model: InventoryModel,
    function: PciFunctionRecord,
    capacity: int,
)
    requires
        lists_each_once(model.functions),
    ensures
        lists_each_once(offered(model, function, capacity).functions),
        crate::trace::continues(offered(model, function, capacity).functions, model.functions),
        model.overflowed ==> offered(model, function, capacity).overflowed,
        model.functions.len() <= capacity ==> offered(model, function, capacity).functions.len()
            <= capacity,
{
}

/// Offering the same function again changes nothing once it is listed.
pub proof fn law_a_listed_function_is_not_listed_again(
    model: InventoryModel,
    function: PciFunctionRecord,
    capacity: int,
)
    requires
        model.functions.len() < capacity,
    ensures
        offered(offered(model, function, capacity), function, capacity) == offered(
            model,
            function,
            capacity,
        ),
{
    let after = offered(model, function, capacity);
    if !lists_address(model.functions, function.address) {
        assert(after.functions[model.functions.len() as int].address == function.address);
    }
}

} // verus!
