//! Read access to configuration space, and the transcript of it.

use super::fingerprint::{FingerprintError, PciFunctionAddress};
use vstd::prelude::*;

verus! {

/// One exchange with a configuration reader.
pub enum ConfigurationEvent {
    Limit(u16),
    Word { address: PciFunctionAddress, offset: u16, reply: Result<u32, FingerprintError> },
}

/// Read access to configuration space. Each call adds one entry to its history.
pub trait PciConfigReader {
    /// All that the reader was asked and answered.
    open spec fn history(&self) -> Seq<ConfigurationEvent> {
        arbitrary()
    }

    fn maximum_offset(&mut self) -> (limit: u16)
        ensures
            final(self).history() == old(self).history().push(ConfigurationEvent::Limit(limit)),
    ;

    fn read_u32(&mut self, address: PciFunctionAddress, offset: u16) -> (reply: Result<
        u32,
        FingerprintError,
    >)
        ensures
            final(self).history() == old(self).history().push(
                ConfigurationEvent::Word { address, offset, reply },
            ),
    ;
}

/// A reader that is lent.
impl<C: PciConfigReader> PciConfigReader for &mut C {
    open spec fn history(&self) -> Seq<ConfigurationEvent> {
        (**self).history()
    }

    fn maximum_offset(&mut self) -> (limit: u16) {
        (**self).maximum_offset()
    }

    fn read_u32(&mut self, address: PciFunctionAddress, offset: u16) -> (reply: Result<
        u32,
        FingerprintError,
    >) {
        (**self).read_u32(address, offset)
    }
}

/// The reader of a measurement. Its transcript is the history of the reader.
pub struct ConfigurationTrace<C> {
    pub reader: C,
}

impl<C: PciConfigReader> ConfigurationTrace<C> {
    pub open spec fn log(&self) -> Seq<ConfigurationEvent> {
        self.reader.history()
    }

    pub fn new(reader: C) -> (trace: Self)
        ensures
            trace.reader == reader,
    {
        ConfigurationTrace { reader }
    }

    pub fn maximum_offset(&mut self) -> (limit: u16)
        ensures
            final(self).log() == old(self).log().push(ConfigurationEvent::Limit(limit)),
    {
        self.reader.maximum_offset()
    }

    pub fn read_u32(&mut self, address: PciFunctionAddress, offset: u16) -> (reply: Result<
        u32,
        FingerprintError,
    >)
        ensures
            final(self).log() == old(self).log().push(
                ConfigurationEvent::Word { address, offset, reply },
            ),
    {
        self.reader.read_u32(address, offset)
    }
}

} // verus!
