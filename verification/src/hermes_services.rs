//! The services that a Hermes driver takes from its kernel, and the transcript of what
//! they were asked.

use crate::hermes_gsp::DmaPurpose;
use crate::pci::PciAddress;
use vstd::prelude::*;

verus! {

/// A mapping of registers.
#[derive(Clone, Copy, Debug, PartialEq, Eq, Structural)]
pub struct MmioMapping {
    pub handle: u64,
    pub pointer: usize,
}

/// The receipt of a DMA allocation.
#[derive(Clone, Copy, Debug, PartialEq, Eq, Structural)]
pub struct DmaAllocation {
    pub handle: u64,
    pub cpu_pointer: usize,
    pub device_address: u64,
}

/// DMA that is bound to a remapping domain. A release that fails leaves its
/// allocation live, to be tried again.
pub trait HermesDomainDmaService {
    /// All that the service was asked and answered.
    open spec fn history(&self) -> Seq<PlatformEvent> {
        arbitrary()
    }

    fn supports(&mut self, purpose: DmaPurpose) -> (reply: bool)
        ensures
            final(self).history() == old(self).history().push(
                PlatformEvent::Supports { purpose, reply },
            ),
    ;

    fn allocate(
        &mut self,
        domain: u64,
        length: usize,
        alignment: usize,
        purpose: DmaPurpose,
    ) -> (reply: Result<DmaAllocation, i32>)
        ensures
            final(self).history() == old(self).history().push(
                PlatformEvent::Allocate { domain, length, alignment, purpose, reply },
            ),
    ;

    fn release(&mut self, domain: u64, allocation: u64) -> (status: i32)
        ensures
            final(self).history() == old(self).history().push(
                PlatformEvent::Release { domain, allocation, status },
            ),
    ;

    fn write(&mut self, allocation: u64, offset: usize, bytes: &[u8]) -> (status: i32)
        ensures
            final(self).history() == old(self).history().push(
                PlatformEvent::Write { allocation, offset, bytes: bytes@, status },
            ),
    ;

    fn read(&mut self, allocation: u64, offset: usize, bytes: &mut [u8]) -> (status: i32)
        ensures
            final(self).history() == old(self).history().push(
                PlatformEvent::Read {
                    allocation,
                    offset,
                    room: old(bytes)@.len(),
                    bytes: final(bytes)@,
                    status,
                },
            ),
    ;

    fn publish(&mut self, allocation: u64, offset: usize, length: usize) -> (status: i32)
        ensures
            final(self).history() == old(self).history().push(
                PlatformEvent::Publish { allocation, offset, length, status },
            ),
    ;

    fn acquire(&mut self, allocation: u64, offset: usize, length: usize) -> (status: i32)
        ensures
            final(self).history() == old(self).history().push(
                PlatformEvent::Acquire { allocation, offset, length, status },
            ),
    ;
}

/// The remapping, register, interrupt and clock services of a kernel. Whoever
/// implements it knows the interrupt handler of its driver.
pub trait HermesKernel {
    /// All that the kernel was asked and answered.
    open spec fn history(&self) -> Seq<PlatformEvent> {
        arbitrary()
    }

    fn isolate_device(&mut self, device: PciAddress) -> (reply: Result<u64, i32>)
        ensures
            final(self).history() == old(self).history().push(
                PlatformEvent::Isolate { device, reply },
            ),
    ;

    fn release_domain(&mut self, domain: u64) -> (status: i32)
        ensures
            final(self).history() == old(self).history().push(
                PlatformEvent::ReleaseDomain { domain, status },
            ),
    ;

    fn map(
        &mut self,
        physical_address: u64,
        length: usize,
        flags: u64,
    ) -> (reply: Result<MmioMapping, i32>)
        ensures
            final(self).history() == old(self).history().push(
                PlatformEvent::Open { physical_address, length, flags, reply },
            ),
    ;

    fn unmap(&mut self, mapping: u64) -> (status: i32)
        ensures
            final(self).history() == old(self).history().push(
                PlatformEvent::Close { mapping, status },
            ),
    ;

    fn read_register(&mut self, address: usize) -> (value: u32)
        ensures
            final(self).history() == old(self).history().push(
                PlatformEvent::Load { address, value },
            ),
    ;

    fn write_register(&mut self, address: usize, value: u32)
        ensures
            final(self).history() == old(self).history().push(
                PlatformEvent::Store { address, value },
            ),
    ;

    fn register(&mut self, line: u32, flags: u64) -> (reply: Result<u64, i32>)
        ensures
            final(self).history() == old(self).history().push(
                PlatformEvent::Register { line, flags, reply },
            ),
    ;

    fn set_enabled(&mut self, interrupt: u64, enabled: bool) -> (status: i32)
        ensures
            final(self).history() == old(self).history().push(
                PlatformEvent::Enable { interrupt, enabled, status },
            ),
    ;

    fn unregister(&mut self, interrupt: u64) -> (status: i32)
        ensures
            final(self).history() == old(self).history().push(
                PlatformEvent::Unregister { interrupt, status },
            ),
    ;

    fn monotonic_ns(&mut self) -> (tick: u64)
        ensures
            final(self).history() == old(self).history().push(PlatformEvent::Now { tick }),
    ;

    fn fence(&mut self)
        ensures
            final(self).history() == old(self).history().push(PlatformEvent::Fence),
    ;

    fn relax(&mut self)
        ensures
            final(self).history() == old(self).history().push(PlatformEvent::Relax),
    ;
}

/// A kernel that is lent.
impl<K: HermesKernel> HermesKernel for &mut K {
    open spec fn history(&self) -> Seq<PlatformEvent> {
        (**self).history()
    }

    fn isolate_device(&mut self, device: PciAddress) -> (reply: Result<u64, i32>) {
        (**self).isolate_device(device)
    }

    fn release_domain(&mut self, domain: u64) -> (status: i32) {
        (**self).release_domain(domain)
    }

    fn map(
        &mut self,
        physical_address: u64,
        length: usize,
        flags: u64,
    ) -> (reply: Result<MmioMapping, i32>) {
        (**self).map(physical_address, length, flags)
    }

    fn unmap(&mut self, mapping: u64) -> (status: i32) {
        (**self).unmap(mapping)
    }

    fn read_register(&mut self, address: usize) -> (value: u32) {
        (**self).read_register(address)
    }

    fn write_register(&mut self, address: usize, value: u32) {
        (**self).write_register(address, value)
    }

    fn register(&mut self, line: u32, flags: u64) -> (reply: Result<u64, i32>) {
        (**self).register(line, flags)
    }

    fn set_enabled(&mut self, interrupt: u64, enabled: bool) -> (status: i32) {
        (**self).set_enabled(interrupt, enabled)
    }

    fn unregister(&mut self, interrupt: u64) -> (status: i32) {
        (**self).unregister(interrupt)
    }

    fn monotonic_ns(&mut self) -> (tick: u64) {
        (**self).monotonic_ns()
    }

    fn fence(&mut self) {
        (**self).fence()
    }

    fn relax(&mut self) {
        (**self).relax()
    }
}

/// One exchange with the kernel or its DMA service.
#[allow(inconsistent_fields)]
pub enum PlatformEvent {
    Isolate { device: PciAddress, reply: Result<u64, i32> },
    ReleaseDomain { domain: u64, status: i32 },
    Open {
        physical_address: u64,
        length: usize,
        flags: u64,
        reply: Result<MmioMapping, i32>,
    },
    Close { mapping: u64, status: i32 },
    Load { address: usize, value: u32 },
    Store { address: usize, value: u32 },
    Register { line: u32, flags: u64, reply: Result<u64, i32> },
    Enable { interrupt: u64, enabled: bool, status: i32 },
    Unregister { interrupt: u64, status: i32 },
    Now { tick: u64 },
    Fence,
    Relax,
    Supports { purpose: DmaPurpose, reply: bool },
    Allocate {
        domain: u64,
        length: usize,
        alignment: usize,
        purpose: DmaPurpose,
        reply: Result<DmaAllocation, i32>,
    },
    Release { domain: u64, allocation: u64, status: i32 },
    Write { allocation: u64, offset: usize, bytes: Seq<u8>, status: i32 },
    Read { allocation: u64, offset: usize, room: nat, bytes: Seq<u8>, status: i32 },
    Publish { allocation: u64, offset: usize, length: usize, status: i32 },
    Acquire { allocation: u64, offset: usize, length: usize, status: i32 },
}

pub open spec fn of_dma() -> spec_fn(PlatformEvent) -> bool {
    |event: PlatformEvent| event.of_dma()
}

pub open spec fn of_kernel() -> spec_fn(PlatformEvent) -> bool {
    |event: PlatformEvent| !event.of_dma()
}

impl PlatformEvent {
    /// Whether the DMA service was asked, and not the kernel.
    pub open spec fn of_dma(self) -> bool {
        match self {
            PlatformEvent::Supports { .. } | PlatformEvent::Allocate { .. }
            | PlatformEvent::Release { .. } | PlatformEvent::Write { .. }
            | PlatformEvent::Read { .. } | PlatformEvent::Publish { .. }
            | PlatformEvent::Acquire { .. } => true,
            _ => false,
        }
    }
}

/// The transcript of the kernel and the DMA service. Only the exchanges below write it.
pub struct ServicesLog {
    entries: Ghost<Seq<PlatformEvent>>,
}

impl View for ServicesLog {
    type V = Seq<PlatformEvent>;

    closed spec fn view(&self) -> Seq<PlatformEvent> {
        self.entries@
    }
}

/// A kernel and its DMA service with the transcript of what they were asked.
pub struct PlatformTrace<K, D> {
    pub kernel: K,
    pub dma: D,
    pub log: ServicesLog,
}

impl<K: HermesKernel, D: HermesDomainDmaService> PlatformTrace<K, D> {
    pub open spec fn log(&self) -> Seq<PlatformEvent> {
        self.log@
    }

    /// Whether this came of an earlier state by exchanges that the transcript and the
    /// histories of both parties hold, and by nothing else.
    #[verifier::opaque]
    pub open spec fn follows(&self, earlier: &Self) -> bool {
        &&& crate::trace::told(
            self.log(),
            earlier.log(),
            self.kernel.history(),
            earlier.kernel.history(),
            of_kernel(),
        )
        &&& crate::trace::told(
            self.log(),
            earlier.log(),
            self.dma.history(),
            earlier.dma.history(),
            of_dma(),
        )
    }

    pub fn new(kernel: K, dma: D) -> (trace: Self)
        ensures
            trace.kernel == kernel,
            trace.dma == dma,
            trace.log() == Seq::<PlatformEvent>::empty(),
    {
        PlatformTrace { kernel, dma, log: ServicesLog { entries: Ghost(Seq::empty()) } }
    }

    pub(crate) fn isolate(&mut self, device: PciAddress) -> (reply: Result<u64, i32>)
        ensures
            final(self).follows(old(self)),
            final(self).log() == old(self).log().push(PlatformEvent::Isolate { device, reply }),
    {
        let reply = self.kernel.isolate_device(device);
        proof {
            let entry = PlatformEvent::Isolate { device, reply };
            self.log.entries@ = self.log.entries@.push(entry);
            lemma_asked_kernel(*old(self), *self, entry);
        }
        reply
    }

    pub(crate) fn release_domain(&mut self, domain: u64) -> (status: i32)
        ensures
            final(self).follows(old(self)),
            final(self).log() == old(self).log().push(
                PlatformEvent::ReleaseDomain { domain, status },
            ),
    {
        let status: i32 = self.kernel.release_domain(domain);
        proof {
            let entry = PlatformEvent::ReleaseDomain { domain, status };
            self.log.entries@ = self.log.entries@.push(entry);
            lemma_asked_kernel(*old(self), *self, entry);
        }
        status
    }

    pub(crate) fn map(
        &mut self,
        physical_address: u64,
        length: usize,
    ) -> (reply: Result<MmioMapping, i32>)
        ensures
            final(self).follows(old(self)),
            final(self).log() == old(self).log().push(
                PlatformEvent::Open { physical_address, length, flags: 0, reply },
            ),
    {
        let reply = self.kernel.map(physical_address, length, 0);
        proof {
            let entry = PlatformEvent::Open { physical_address, length, flags: 0, reply };
            self.log.entries@ = self.log.entries@.push(entry);
            lemma_asked_kernel(*old(self), *self, entry);
        }
        reply
    }

    pub(crate) fn unmap(&mut self, mapping: u64) -> (status: i32)
        ensures
            final(self).follows(old(self)),
            final(self).log() == old(self).log().push(PlatformEvent::Close { mapping, status }),
    {
        let status: i32 = self.kernel.unmap(mapping);
        proof {
            let entry = PlatformEvent::Close { mapping, status };
            self.log.entries@ = self.log.entries@.push(entry);
            lemma_asked_kernel(*old(self), *self, entry);
        }
        status
    }

    pub(crate) fn load(&mut self, address: usize) -> (value: u32)
        ensures
            final(self).follows(old(self)),
            final(self).log() == old(self).log().push(PlatformEvent::Load { address, value }),
    {
        let value: u32 = self.kernel.read_register(address);
        proof {
            let entry = PlatformEvent::Load { address, value };
            self.log.entries@ = self.log.entries@.push(entry);
            lemma_asked_kernel(*old(self), *self, entry);
        }
        value
    }

    pub(crate) fn store(&mut self, address: usize, value: u32)
        ensures
            final(self).follows(old(self)),
            final(self).log() == old(self).log().push(PlatformEvent::Store { address, value }),
    {
        self.kernel.write_register(address, value);
        proof {
            let entry = PlatformEvent::Store { address, value };
            self.log.entries@ = self.log.entries@.push(entry);
            lemma_asked_kernel(*old(self), *self, entry);
        }
    }

    pub(crate) fn register(&mut self, line: u32) -> (reply: Result<u64, i32>)
        ensures
            final(self).follows(old(self)),
            final(self).log() == old(self).log().push(
                PlatformEvent::Register { line, flags: 0, reply },
            ),
    {
        let reply = self.kernel.register(line, 0);
        proof {
            let entry = PlatformEvent::Register { line, flags: 0, reply };
            self.log.entries@ = self.log.entries@.push(entry);
            lemma_asked_kernel(*old(self), *self, entry);
        }
        reply
    }

    pub(crate) fn set_enabled(&mut self, interrupt: u64, enabled: bool) -> (status: i32)
        ensures
            final(self).follows(old(self)),
            final(self).log() == old(self).log().push(
                PlatformEvent::Enable { interrupt, enabled, status },
            ),
    {
        let status: i32 = self.kernel.set_enabled(interrupt, enabled);
        proof {
            let entry = PlatformEvent::Enable { interrupt, enabled, status };
            self.log.entries@ = self.log.entries@.push(entry);
            lemma_asked_kernel(*old(self), *self, entry);
        }
        status
    }

    pub(crate) fn unregister(&mut self, interrupt: u64) -> (status: i32)
        ensures
            final(self).follows(old(self)),
            final(self).log() == old(self).log().push(
                PlatformEvent::Unregister { interrupt, status },
            ),
    {
        let status: i32 = self.kernel.unregister(interrupt);
        proof {
            let entry = PlatformEvent::Unregister { interrupt, status };
            self.log.entries@ = self.log.entries@.push(entry);
            lemma_asked_kernel(*old(self), *self, entry);
        }
        status
    }

    pub(crate) fn now(&mut self) -> (tick: u64)
        ensures
            final(self).follows(old(self)),
            final(self).log() == old(self).log().push(PlatformEvent::Now { tick }),
    {
        let tick: u64 = self.kernel.monotonic_ns();
        proof {
            let entry = PlatformEvent::Now { tick };
            self.log.entries@ = self.log.entries@.push(entry);
            lemma_asked_kernel(*old(self), *self, entry);
        }
        tick
    }

    pub(crate) fn fence(&mut self)
        ensures
            final(self).follows(old(self)),
            final(self).log() == old(self).log().push(PlatformEvent::Fence),
    {
        self.kernel.fence();
        proof {
            let entry = PlatformEvent::Fence;
            self.log.entries@ = self.log.entries@.push(entry);
            lemma_asked_kernel(*old(self), *self, entry);
        }
    }

    pub(crate) fn relax(&mut self)
        ensures
            final(self).follows(old(self)),
            final(self).log() == old(self).log().push(PlatformEvent::Relax),
    {
        self.kernel.relax();
        proof {
            let entry = PlatformEvent::Relax;
            self.log.entries@ = self.log.entries@.push(entry);
            lemma_asked_kernel(*old(self), *self, entry);
        }
    }

    pub(crate) fn supports(&mut self, purpose: DmaPurpose) -> (reply: bool)
        ensures
            final(self).follows(old(self)),
            final(self).log() == old(self).log().push(PlatformEvent::Supports { purpose, reply }),
    {
        let reply: bool = self.dma.supports(purpose);
        proof {
            let entry = PlatformEvent::Supports { purpose, reply };
            self.log.entries@ = self.log.entries@.push(entry);
            lemma_asked_dma(*old(self), *self, entry);
        }
        reply
    }

    pub(crate) fn allocate(
        &mut self,
        domain: u64,
        length: usize,
        alignment: usize,
        purpose: DmaPurpose,
    ) -> (reply: Result<DmaAllocation, i32>)
        ensures
            final(self).follows(old(self)),
            final(self).log() == old(self).log().push(
                PlatformEvent::Allocate { domain, length, alignment, purpose, reply },
            ),
    {
        let reply = self.dma.allocate(domain, length, alignment, purpose);
        proof {
            let entry = PlatformEvent::Allocate { domain, length, alignment, purpose, reply };
            self.log.entries@ = self.log.entries@.push(entry);
            lemma_asked_dma(*old(self), *self, entry);
        }
        reply
    }

    pub(crate) fn release(&mut self, domain: u64, allocation: u64) -> (status: i32)
        ensures
            final(self).follows(old(self)),
            final(self).log() == old(self).log().push(
                PlatformEvent::Release { domain, allocation, status },
            ),
    {
        let status: i32 = self.dma.release(domain, allocation);
        proof {
            let entry = PlatformEvent::Release { domain, allocation, status };
            self.log.entries@ = self.log.entries@.push(entry);
            lemma_asked_dma(*old(self), *self, entry);
        }
        status
    }

    pub(crate) fn write(&mut self, allocation: u64, offset: usize, bytes: &[u8]) -> (status: i32)
        ensures
            final(self).follows(old(self)),
            final(self).log() == old(self).log().push(
                PlatformEvent::Write { allocation, offset, bytes: bytes@, status },
            ),
    {
        let status: i32 = self.dma.write(allocation, offset, bytes);
        proof {
            let entry = PlatformEvent::Write { allocation, offset, bytes: bytes@, status };
            self.log.entries@ = self.log.entries@.push(entry);
            lemma_asked_dma(*old(self), *self, entry);
        }
        status
    }

    pub(crate) fn read(&mut self, allocation: u64, offset: usize, bytes: &mut [u8]) -> (status: i32)
        ensures
            final(self).follows(old(self)),
            final(self).log() == old(self).log().push(
                PlatformEvent::Read {
                    allocation,
                    offset,
                    room: old(bytes)@.len(),
                    bytes: final(bytes)@,
                    status,
                },
            ),
    {
        let ghost room = bytes@.len();
        let status: i32 = self.dma.read(allocation, offset, bytes);
        proof {
            let entry = PlatformEvent::Read {
                allocation,
                offset,
                room: room,
                bytes: bytes@,
                status,
            };
            self.log.entries@ = self.log.entries@.push(entry);
            lemma_asked_dma(*old(self), *self, entry);
        }
        status
    }

    pub(crate) fn publish(&mut self, allocation: u64, offset: usize, length: usize) -> (status: i32)
        ensures
            final(self).follows(old(self)),
            final(self).log() == old(self).log().push(
                PlatformEvent::Publish { allocation, offset, length, status },
            ),
    {
        let status: i32 = self.dma.publish(allocation, offset, length);
        proof {
            let entry = PlatformEvent::Publish { allocation, offset, length, status };
            self.log.entries@ = self.log.entries@.push(entry);
            lemma_asked_dma(*old(self), *self, entry);
        }
        status
    }

    pub(crate) fn acquire(&mut self, allocation: u64, offset: usize, length: usize) -> (status: i32)
        ensures
            final(self).follows(old(self)),
            final(self).log() == old(self).log().push(
                PlatformEvent::Acquire { allocation, offset, length, status },
            ),
    {
        let status: i32 = self.dma.acquire(allocation, offset, length);
        proof {
            let entry = PlatformEvent::Acquire { allocation, offset, length, status };
            self.log.entries@ = self.log.entries@.push(entry);
            lemma_asked_dma(*old(self), *self, entry);
        }
        status
    }

}

pub broadcast proof fn lemma_follows_itself<K: HermesKernel, D: HermesDomainDmaService>(
    trace: PlatformTrace<K, D>,
)
    ensures
        #[trigger] trace.follows(&trace),
{
    reveal(PlatformTrace::follows);
    crate::trace::lemma_told_nothing(trace.log(), trace.kernel.history(), of_kernel());
    crate::trace::lemma_told_nothing(trace.log(), trace.dma.history(), of_dma());
}

pub broadcast proof fn lemma_follows_continues<K: HermesKernel, D: HermesDomainDmaService>(
    trace: PlatformTrace<K, D>,
    earlier: PlatformTrace<K, D>,
)
    requires
        #[trigger] trace.follows(&earlier),
    ensures
        crate::trace::continues(trace.log(), earlier.log()),
{
    reveal(PlatformTrace::follows);
}

pub broadcast proof fn lemma_follows_through<K: HermesKernel, D: HermesDomainDmaService>(
    trace: PlatformTrace<K, D>,
    middle: PlatformTrace<K, D>,
    earlier: PlatformTrace<K, D>,
)
    requires
        #[trigger] trace.follows(&middle),
        #[trigger] middle.follows(&earlier),
    ensures
        trace.follows(&earlier),
{
    reveal(PlatformTrace::follows);
    crate::trace::lemma_told_through(
        trace.log(),
        middle.log(),
        earlier.log(),
        trace.kernel.history(),
        middle.kernel.history(),
        earlier.kernel.history(),
        of_kernel(),
    );
    crate::trace::lemma_told_through(
        trace.log(),
        middle.log(),
        earlier.log(),
        trace.dma.history(),
        middle.dma.history(),
        earlier.dma.history(),
        of_dma(),
    );
}

proof fn lemma_asked_kernel<K: HermesKernel, D: HermesDomainDmaService>(
    before: PlatformTrace<K, D>,
    after: PlatformTrace<K, D>,
    entry: PlatformEvent,
)
    requires
        after.log() == before.log().push(entry),
        !entry.of_dma(),
        after.kernel.history() == before.kernel.history().push(entry),
        after.dma == before.dma,
    ensures
        after.follows(&before),
{
    reveal(PlatformTrace::follows);
    crate::trace::lemma_told_one(before.log(), entry, before.kernel.history(), of_kernel());
    crate::trace::lemma_told_one(before.log(), entry, before.dma.history(), of_dma());
}

proof fn lemma_asked_dma<K: HermesKernel, D: HermesDomainDmaService>(
    before: PlatformTrace<K, D>,
    after: PlatformTrace<K, D>,
    entry: PlatformEvent,
)
    requires
        after.log() == before.log().push(entry),
        entry.of_dma(),
        after.dma.history() == before.dma.history().push(entry),
        after.kernel == before.kernel,
    ensures
        after.follows(&before),
{
    reveal(PlatformTrace::follows);
    crate::trace::lemma_told_one(before.log(), entry, before.kernel.history(), of_kernel());
    crate::trace::lemma_told_one(before.log(), entry, before.dma.history(), of_dma());
}

} // verus!
