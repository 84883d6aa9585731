//! The two cascaded 8259 interrupt controllers.
use crate::port::{byte_write, count_of, lemma_count_of_absent, lemma_count_of_joined, outb};
use crate::port::{PortBus, PortWrite};
use vstd::prelude::*;

verus! {

pub const PIC1_COMMAND_PORT: u16 = 0x20;

pub const PIC2_COMMAND_PORT: u16 = 0xA0;

pub const PIC1_DATA_PORT: u16 = 0x21;

pub const PIC2_DATA_PORT: u16 = 0xA1;

/// Command: start the initialisation, a fourth word follows.
pub const PIC_INIT: u8 = 0x11;

/// Mode word: 8086 mode.
pub const PIC_8086: u8 = 0x01;

/// Command: end of interrupt.
pub const PIC_EOI: u8 = 0x20;

/// The vector of the first line of the master; its lines take 32 to 39.
pub const PIC1_IDT_OFFSET: u8 = 32;

/// The vector of the first line of the slave; its lines take 40 to 47.
pub const PIC2_IDT_OFFSET: u8 = 40;

/// The hardware interrupt lines that the kernel serves.
#[derive(Debug, Clone, Copy, PartialEq, Eq)]
pub enum PicIndex {
    Timer,
    Keyboard,
}

impl PicIndex {
    /// The vector on which the line arrives once the controllers are remapped.
    pub open spec fn spec_vector(self) -> u8 {
        match self {
            PicIndex::Timer => 32,
            PicIndex::Keyboard => 33,
        }
    }

    #[verifier::when_used_as_spec(spec_vector)]
    pub fn vector(self) -> (vector: u8)
        ensures
            vector == self.spec_vector(),
            32 <= vector < 48,
    {
        match self {
            PicIndex::Timer => PIC1_IDT_OFFSET,
            PicIndex::Keyboard => PIC1_IDT_OFFSET + 1,
        }
    }
}

/// The writes that initialise both controllers: the command to both, then for
/// each its vector offset, its place in the cascade, the mode, and a mask that
/// lets every line through.
pub open spec fn init_writes() -> Seq<PortWrite> {
    seq![
        byte_write(PIC1_COMMAND_PORT, PIC_INIT),
        byte_write(PIC2_COMMAND_PORT, PIC_INIT),
        byte_write(PIC1_DATA_PORT, PIC1_IDT_OFFSET),
        byte_write(PIC2_DATA_PORT, PIC2_IDT_OFFSET),
        byte_write(PIC1_DATA_PORT, 4),
        byte_write(PIC2_DATA_PORT, 2),
        byte_write(PIC1_DATA_PORT, PIC_8086),
        byte_write(PIC2_DATA_PORT, PIC_8086),
        byte_write(PIC1_DATA_PORT, 0),
        byte_write(PIC2_DATA_PORT, 0),
    ]
}

/// The end-of-interrupt command to the master.
pub open spec fn master_eoi() -> PortWrite {
    byte_write(PIC1_COMMAND_PORT, PIC_EOI)
}

/// The end-of-interrupt command to the slave.
pub open spec fn slave_eoi() -> PortWrite {
    byte_write(PIC2_COMMAND_PORT, PIC_EOI)
}

/// The pair of controllers.
pub struct Pic {
    initialized: bool,
}

impl Pic {
    /// Whether `init` has run.
    pub closed spec fn initialized(&self) -> bool {
        self.initialized
    }

    pub fn new() -> (pic: Self)
        ensures
            !pic.initialized(),
    {
        Self { initialized: false }
    }

    /// Whether `init` has run.
    pub fn is_initialized(&self) -> (done: bool)
        ensures
            done == self.initialized(),
    {
        self.initialized
    }

    /// Initialises both controllers, which moves their lines to the vectors
    /// from 32 on and lets every line through.
    pub fn init(&mut self, bus: &mut PortBus)
        ensures
            final(bus)@ == old(bus)@ + init_writes(),
            final(self).initialized(),
    {
        outb(bus, PIC1_COMMAND_PORT, PIC_INIT);
        outb(bus, PIC2_COMMAND_PORT, PIC_INIT);

        // Offset
        outb(bus, PIC1_DATA_PORT, PIC1_IDT_OFFSET);
        outb(bus, PIC2_DATA_PORT, PIC2_IDT_OFFSET);

        // Cascading
        outb(bus, PIC1_DATA_PORT, 4);
        outb(bus, PIC2_DATA_PORT, 2);

        // 8086/88 mode
        outb(bus, PIC1_DATA_PORT, PIC_8086);
        outb(bus, PIC2_DATA_PORT, PIC_8086);

        // No masking
        outb(bus, PIC1_DATA_PORT, 0);
        outb(bus, PIC2_DATA_PORT, 0);
        self.initialized = true;
        assert(bus@ =~= old(bus)@ + init_writes());
    }
}

/// Tells the master that the interrupt has been served.
pub fn pic1_eoi(bus: &mut PortBus)
    ensures
        final(bus)@ == old(bus)@.push(master_eoi()),
{
    outb(bus, PIC1_COMMAND_PORT, PIC_EOI);
}

/// Tells the slave that the interrupt has been served.
pub fn pic2_eoi(bus: &mut PortBus)
    ensures
        final(bus)@ == old(bus)@.push(slave_eoi()),
{
    outb(bus, PIC2_COMMAND_PORT, PIC_EOI);
}

/// Initialising the controllers sends no end-of-interrupt command, however
/// often it is done; each acknowledgement to the master sends exactly one. So
/// after two initialisations and one acknowledgement the trace holds one such
/// command more than before.
pub proof fn lemma_init_sends_no_eoi(before: Seq<PortWrite>)
    ensures
        count_of(init_writes(), master_eoi()) == 0,
        count_of(init_writes(), slave_eoi()) == 0,
        count_of(before + init_writes(), master_eoi()) == count_of(before, master_eoi()),
        count_of(before.push(master_eoi()), master_eoi()) == count_of(before, master_eoi()) + 1,
        count_of((before + init_writes() + init_writes()).push(master_eoi()), master_eoi())
            == count_of(before, master_eoi()) + 1,
{
    lemma_count_of_absent(init_writes(), master_eoi());
    lemma_count_of_absent(init_writes(), slave_eoi());
    lemma_count_of_joined(before, init_writes(), master_eoi());
    lemma_count_of_joined(before + init_writes(), init_writes(), master_eoi());
    assert(before.push(master_eoi()).drop_last() == before);
    assert((before + init_writes() + init_writes()).push(master_eoi()).drop_last() == before
        + init_writes() + init_writes());
}

} // verus!
