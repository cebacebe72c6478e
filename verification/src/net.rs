//! Network devices behind a table of callbacks.

use crate::status::{
    STATUS_ABI_MISMATCH, STATUS_INVALID_ARGUMENT, STATUS_NOT_FOUND, STATUS_OK,
};
use vstd::prelude::*;

verus! {

pub const NETWORK_ABI_VERSION: u32 = 1;

/// What a device says of itself and of its callbacks.
#[derive(Clone, Copy, Debug, PartialEq, Eq)]
pub struct NetworkDescriptor {
    pub abi_version: u32,
    pub struct_size: u32,
    pub has_context: bool,
    pub mac_address: [u8; 6],
    pub maximum_transmission_unit: u32,
    pub has_transmit: bool,
    pub has_receive: bool,
}

/// The status that a descriptor is refused with.
#[verifier::allow_in_spec]
pub fn descriptor_fault(descriptor: NetworkDescriptor, minimum_size: u32) -> Option<i32>
    returns
        (if descriptor.abi_version != NETWORK_ABI_VERSION || descriptor.struct_size
            < minimum_size {
            Some(STATUS_ABI_MISMATCH)
        } else if !descriptor.has_context || !descriptor.has_transmit || !descriptor.has_receive
            || descriptor.maximum_transmission_unit == 0 {
            Some(STATUS_INVALID_ARGUMENT)
        } else {
            None::<i32>
        }),
{
    if descriptor.abi_version != NETWORK_ABI_VERSION || descriptor.struct_size < minimum_size {
        return Some(STATUS_ABI_MISMATCH);
    }
    if !descriptor.has_context || !descriptor.has_transmit || !descriptor.has_receive
        || descriptor.maximum_transmission_unit == 0 {
        return Some(STATUS_INVALID_ARGUMENT);
    }
    None
}

/// What a receive callback's answer means to a caller with so much room.
#[verifier::allow_in_spec]
pub fn settle_receive(status: i32, packet_length: usize, capacity: usize) -> Result<
    Option<usize>,
    i32,
>
    returns
        (if status == STATUS_NOT_FOUND {
            Ok::<Option<usize>, i32>(None)
        } else if status != STATUS_OK {
            Err(status)
        } else if packet_length > capacity {
            Err(STATUS_INVALID_ARGUMENT)
        } else {
            Ok(Some(packet_length))
        }),
{
    if status == STATUS_NOT_FOUND {
        return Ok(None);
    }
    if status != STATUS_OK {
        return Err(status);
    }
    if packet_length > capacity {
        return Err(STATUS_INVALID_ARGUMENT);
    }
    Ok(Some(packet_length))
}

/// One call of a callback.
pub enum NetworkCall {
    Transmit { packet: Seq<u8>, status: i32 },
    Receive { before: Seq<u8>, after: Seq<u8>, status: i32, length: usize },
}

/// The callbacks of a device, called one at a time. Each call adds one entry to their
/// history.
pub trait NetworkCallbacks {
    /// All calls so far.
    open spec fn history(&self) -> Seq<NetworkCall> {
        arbitrary()
    }

    fn transmit(&mut self, packet: &[u8]) -> (status: i32)
        ensures
            final(self).history() == old(self).history().push(
                NetworkCall::Transmit { packet: packet@, status },
            ),
    ;

    /// Fills the packet and answers with a status and a length.
    fn receive(&mut self, packet: &mut [u8]) -> (reply: (i32, usize))
        ensures
            final(self).history() == old(self).history().push(
                NetworkCall::Receive {
                    before: old(packet)@,
                    after: final(packet)@,
                    status: reply.0,
                    length: reply.1,
                },
            ),
    ;
}

/// Callbacks that are lent.
impl<C: NetworkCallbacks> NetworkCallbacks for &mut C {
    open spec fn history(&self) -> Seq<NetworkCall> {
        (**self).history()
    }

    fn transmit(&mut self, packet: &[u8]) -> (status: i32) {
        (**self).transmit(packet)
    }

    fn receive(&mut self, packet: &mut [u8]) -> (reply: (i32, usize)) {
        (**self).receive(packet)
    }
}

pub trait NetworkDevice {
    fn mac_address(&self) -> [u8; 6];

    fn maximum_transmission_unit(&self) -> usize;

    fn transmit(&mut self, packet: &[u8]) -> i32;

    fn receive(&mut self, packet: &mut [u8]) -> Result<Option<usize>, i32>;
}

/// A device whose descriptor was found sound.
pub struct DynamicCDriverShim<C: NetworkCallbacks> {
    pub descriptor: NetworkDescriptor,
    pub callbacks: C,
}

impl<C: NetworkCallbacks> DynamicCDriverShim<C> {
    /// Wraps the callbacks of a device. They must stay callable from any CPU for
    /// as long as the shim lives.
    pub fn new(descriptor: NetworkDescriptor, minimum_size: u32, callbacks: C) -> (result: Result<
        Self,
        i32,
    >)
        ensures
            match descriptor_fault(descriptor, minimum_size) {
                Some(status) => result == Err::<Self, i32>(status),
                None => result == Ok::<Self, i32>(DynamicCDriverShim { descriptor, callbacks }),
            },
    {
        match descriptor_fault(descriptor, minimum_size) {
            Some(status) => Err(status),
            None => Ok(DynamicCDriverShim { descriptor, callbacks }),
        }
    }

    /// Whether a packet of some length may be sent.
    pub open spec fn admits(&self, length: nat) -> bool {
        0 < length <= self.descriptor.maximum_transmission_unit
    }
}

impl<C: NetworkCallbacks> NetworkDevice for DynamicCDriverShim<C> {
    fn mac_address(&self) -> (address: [u8; 6])
        ensures
            address == self.descriptor.mac_address,
    {
        self.descriptor.mac_address
    }

    fn maximum_transmission_unit(&self) -> (unit: usize)
        ensures
            unit == self.descriptor.maximum_transmission_unit,
    {
        self.descriptor.maximum_transmission_unit as usize
    }

    /// Hands an admissible packet to the callback, once; any other reaches no callback.
    fn transmit(&mut self, packet: &[u8]) -> (status: i32)
        ensures
            final(self).descriptor == old(self).descriptor,
            if old(self).admits(packet@.len()) {
                final(self).callbacks.history() == old(self).callbacks.history().push(
                    NetworkCall::Transmit { packet: packet@, status },
                )
            } else {
                status == STATUS_INVALID_ARGUMENT && final(self).callbacks == old(self).callbacks
            },
    {
        if packet.len() == 0 || packet.len() > self.descriptor.maximum_transmission_unit as usize {
            return STATUS_INVALID_ARGUMENT;
        }
        self.callbacks.transmit(packet)
    }

    /// Asks the callback for a packet, once, where there is room at all.
    fn receive(&mut self, packet: &mut [u8]) -> (result: Result<Option<usize>, i32>)
        ensures
            final(self).descriptor == old(self).descriptor,
            old(packet)@.len() == 0 ==> result == Err::<Option<usize>, i32>(
                STATUS_INVALID_ARGUMENT,
            ) && final(packet)@ == old(packet)@ && final(self).callbacks == old(self).callbacks,
            old(packet)@.len() > 0 ==> exists|status: i32, length: usize|
                final(self).callbacks.history() == #[trigger] old(self).callbacks.history().push(
                    NetworkCall::Receive {
                        before: old(packet)@,
                        after: final(packet)@,
                        status,
                        length,
                    },
                ) && result == settle_receive(status, length, old(packet)@.len() as usize),
    {
        let capacity: usize = packet.len();
        if capacity == 0 {
            return Err(STATUS_INVALID_ARGUMENT);
        }
        let (status, length): (i32, usize) = self.callbacks.receive(packet);
        assert(old(packet)@.len() as usize == capacity);
        settle_receive(status, length, capacity)
    }
}

/// A received packet fits in the room that it was given.
pub proof fn law_a_received_packet_fits(status: i32, length: usize, capacity: usize)
    ensures
        settle_receive(status, length, capacity) matches Ok(Some(received)) ==> received
            == length && received <= capacity && status == STATUS_OK,
{
}

} // verus!
