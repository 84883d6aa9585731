//! The I/O port space, as the trace of what was written to it.
//!
//! The kernel's drivers do not touch the ports themselves. They append their
//! writes to a `PortBus`, in order, and whoever owns the hardware carries them
//! out.
use vstd::prelude::*;

verus! {

/// How many bits a port write carries.
#[derive(Debug, Clone, Copy, PartialEq, Eq)]
pub enum PortWidth {
    Byte,
    Word,
    Long,
}

/// One write to an I/O port.
#[derive(Debug, Clone, Copy, PartialEq, Eq)]
pub struct PortWrite {
    pub port: u16,
    pub width: PortWidth,
    pub value: u32,
}

/// The write of one byte.
pub open spec fn byte_write(port: u16, value: u8) -> PortWrite {
    PortWrite { port, width: PortWidth::Byte, value: value as u32 }
}

/// How often `write` occurs in `trace`.
pub open spec fn count_of(trace: Seq<PortWrite>, write: PortWrite) -> nat
    decreases trace.len(),
{
    if trace.len() == 0 {
        0
    } else {
        count_of(trace.drop_last(), write) + if trace.last() == write {
            1nat
        } else {
            0nat
        }
    }
}

/// The writes made so far, oldest first.
pub struct PortBus {
    writes: Vec<PortWrite>,
}

impl View for PortBus {
    type V = Seq<PortWrite>;

    closed spec fn view(&self) -> Seq<PortWrite> {
        self.writes@
    }
}

impl PortBus {
    /// A bus that nothing was written to.
    pub fn new() -> (bus: Self)
        ensures
            bus@ == Seq::<PortWrite>::empty(),
    {
        Self { writes: Vec::new() }
    }

    /// Number of writes made so far.
    pub fn len(&self) -> (count: usize)
        ensures
            count == self@.len(),
    {
        self.writes.len()
    }

    /// The write numbered `index`, counted from the oldest.
    pub fn get(&self, index: usize) -> (write: PortWrite)
        requires
            index < self@.len(),
        ensures
            write == self@[index as int],
    {
        self.writes[index]
    }

    /// Hands out the writes made so far and starts over with none.
    pub fn drain(&mut self) -> (writes: Vec<PortWrite>)
        ensures
            writes@ == old(self)@,
            final(self)@ == Seq::<PortWrite>::empty(),
    {
        let mut writes: Vec<PortWrite> = Vec::new();
        core::mem::swap(&mut writes, &mut self.writes);
        writes
    }

    fn record(&mut self, write: PortWrite)
        ensures
            final(self)@ == old(self)@.push(write),
    {
        self.writes.push(write);
    }
}

/// Writes the byte `value` to `port`.
pub fn outb(bus: &mut PortBus, port: u16, value: u8)
    ensures
        final(bus)@ == old(bus)@.push(byte_write(port, value)),
{
    bus.record(PortWrite { port, width: PortWidth::Byte, value: value as u32 });
}

/// Writes the 16-bit `value` to `port`.
pub fn outw(bus: &mut PortBus, port: u16, value: u16)
    ensures
        final(bus)@ == old(bus)@.push(
            (PortWrite { port, width: PortWidth::Word, value: value as u32 }),
        ),
{
    bus.record(PortWrite { port, width: PortWidth::Word, value: value as u32 });
}

/// Writes the 32-bit `value` to `port`.
pub fn outl(bus: &mut PortBus, port: u16, value: u32)
    ensures
        final(bus)@ == old(bus)@.push((PortWrite { port, width: PortWidth::Long, value })),
{
    bus.record(PortWrite { port, width: PortWidth::Long, value });
}

/// The count over two traces joined is the sum of the counts.
pub proof fn lemma_count_of_joined(first: Seq<PortWrite>, second: Seq<PortWrite>, write: PortWrite)
    ensures
        count_of(first + second, write) == count_of(first, write) + count_of(second, write),
    decreases second.len(),
{
    if second.len() == 0 {
        assert(first + second == first);
    } else {
        assert((first + second).drop_last() == first + second.drop_last());
        lemma_count_of_joined(first, second.drop_last(), write);
    }
}

/// A write that stands nowhere in a trace is counted 0 times.
pub proof fn lemma_count_of_absent(trace: Seq<PortWrite>, write: PortWrite)
    requires
        forall|i: int| 0 <= i < trace.len() ==> trace[i] != write,
    ensures
        count_of(trace, write) == 0,
    decreases trace.len(),
{
    if trace.len() > 0 {
        lemma_count_of_absent(trace.drop_last(), write);
    }
}

} // verus!
