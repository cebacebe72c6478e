use boulder_drivers::net::{
    settle_receive, DynamicCDriverShim, NetworkCallbacks, NetworkDescriptor, NetworkDevice,
    NETWORK_ABI_VERSION,
};
use boulder_drivers::status::{
    STATUS_ABI_MISMATCH, STATUS_BUSY, STATUS_INVALID_ARGUMENT, STATUS_NOT_FOUND, STATUS_OK,
};
use std::cell::Cell;

struct Callbacks<'a> {
    counter: &'a Cell<usize>,
}

impl NetworkCallbacks for Callbacks<'_> {
    fn transmit(&mut self, packet: &[u8]) -> i32 {
        self.counter.set(packet.len());
        STATUS_OK
    }

    fn receive(&mut self, packet: &mut [u8]) -> (i32, usize) {
        if packet.len() < 3 {
            return (STATUS_INVALID_ARGUMENT, 0);
        }
        packet[..3].copy_from_slice(&[1, 2, 3]);
        (STATUS_OK, 3)
    }
}

fn descriptor() -> NetworkDescriptor {
    NetworkDescriptor {
        abi_version: NETWORK_ABI_VERSION,
        struct_size: 56,
        has_context: true,
        mac_address: [2, 0, 0, 0, 0, 1],
        maximum_transmission_unit: 1500,
        has_transmit: true,
        has_receive: true,
    }
}

#[test]
fn validates_and_serializes_c_network_callbacks() {
    let counter = Cell::new(0);
    let mut device = DynamicCDriverShim::new(descriptor(), 56, Callbacks { counter: &counter })
        .ok()
        .unwrap();

    assert_eq!(device.transmit(&[0; 64]), STATUS_OK);
    assert_eq!(counter.get(), 64);
    let mut packet = [0_u8; 8];
    assert_eq!(device.receive(&mut packet), Ok(Some(3)));
    assert_eq!(&packet[..3], &[1, 2, 3]);
    assert_eq!(device.mac_address(), [2, 0, 0, 0, 0, 1]);
    assert_eq!(device.maximum_transmission_unit(), 1500);
}

#[test]
fn foreign_descriptors_are_refused() {
    let counter = Cell::new(0);
    let mut foreign = descriptor();
    foreign.abi_version += 1;
    assert_eq!(
        DynamicCDriverShim::new(foreign, 56, Callbacks { counter: &counter }).err(),
        Some(STATUS_ABI_MISMATCH)
    );
    let mut silent = descriptor();
    silent.has_transmit = false;
    assert_eq!(
        DynamicCDriverShim::new(silent, 56, Callbacks { counter: &counter }).err(),
        Some(STATUS_INVALID_ARGUMENT)
    );
}

#[test]
fn a_received_length_must_fit() {
    assert_eq!(
        settle_receive(STATUS_OK, 9, 8),
        Err(STATUS_INVALID_ARGUMENT)
    );
    assert_eq!(settle_receive(STATUS_OK, 8, 8), Ok(Some(8)));
    assert_eq!(settle_receive(STATUS_NOT_FOUND, 0, 8), Ok(None));
    assert_eq!(settle_receive(STATUS_BUSY, 0, 8), Err(STATUS_BUSY));
}
