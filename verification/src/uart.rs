//! The serial port, a 16550 with its eight registers at consecutive ports.
use crate::port::{byte_write, outb, PortBus, PortWrite};
use vstd::prelude::*;
use vstd::string::StringSliceAdditionalSpecFns;

verus! {

/// The port of the first serial line.
pub const COM1: u16 = 0x3F8;

/// The byte that the self-test sends through the loop.
pub const LOOPBACK_BYTE: u8 = 0xAE;

/// Bit 5 of the line status: the transmit buffer is empty.
pub const TRANSMIT_EMPTY: u8 = 0x20;

/// The highest port at which a serial line can have its first register: the
/// line status, the last register that is used, is five ports further on.
pub const MAX_BASE_PORT: u16 = 0xFFFA;

/// The writes that set the line up and start its self-test: interrupts off;
/// divisor 3 between setting and clearing the latch bit; eight bits, no
/// parity, one stop bit; the buffers on and cleared; the modem lines; then
/// the loop closed and the test byte sent.
pub open spec fn init_writes(port: u16) -> Seq<PortWrite> {
    seq![
        byte_write((port + 1) as u16, 0),
        byte_write((port + 3) as u16, 0x80),
        byte_write(port, 3),
        byte_write((port + 1) as u16, 0),
        byte_write((port + 3) as u16, 0x03),
        byte_write((port + 2) as u16, 0xC7),
        byte_write((port + 4) as u16, 0x0B),
        byte_write((port + 4) as u16, 0x1E),
        byte_write(port, LOOPBACK_BYTE),
    ]
}

/// The write that opens the loop again and puts the line to work.
pub open spec fn normal_mode(port: u16) -> PortWrite {
    byte_write((port + 4) as u16, 0x0F)
}

/// The writes that send `bytes`, one write to the data register for each.
pub open spec fn sent(port: u16, bytes: Seq<u8>) -> Seq<PortWrite> {
    Seq::new(bytes.len(), |i: int| byte_write(port, bytes[i]))
}

/// Whether the line status `status` says that a byte can be sent.
pub open spec fn spec_transmit_ready(status: u8) -> bool {
    status / 32 % 2 == 1
}

#[verifier::when_used_as_spec(spec_transmit_ready)]
pub fn transmit_ready(status: u8) -> (ready: bool)
    ensures
        ready == spec_transmit_ready(status),
{
    assert((status & 0x20 != 0) <==> status / 32 % 2 == 1) by (bit_vector);
    (status & TRANSMIT_EMPTY) != 0
}

/// A serial line.
pub struct SerialPort {
    port: u16,
}

impl SerialPort {
    /// The port of the line's first register, the data register.
    pub closed spec fn base(&self) -> u16 {
        self.port
    }

    pub fn new(port: u16) -> (serial: Self)
        ensures
            serial.base() == port,
    {
        Self { port }
    }

    /// The port of the data register. After `init`, the byte read from it is
    /// what `finish_init` is to be given.
    pub fn data_port(&self) -> (port: u16)
        ensures
            port == self.base(),
    {
        self.port
    }

    /// The port of the line status register, which is read before each byte
    /// is sent.
    pub fn status_port(&self) -> (port: u16)
        requires
            self.base() <= MAX_BASE_PORT,
        ensures
            port == self.base() + 5,
    {
        self.port + 5
    }

    /// Sets the line up and starts its self-test.
    pub fn init(&mut self, bus: &mut PortBus)
        requires
            old(self).base() + 4 <= u16::MAX,
        ensures
            final(self).base() == old(self).base(),
            final(bus)@ == old(bus)@ + init_writes(old(self).base()),
    {
        let p = self.port;

        // Disable interrupts
        outb(bus, p + 1, 0);

        // Set baudrate divisor = 3
        outb(bus, p + 3, 0b1000_0000);  // Set DLAB mode
        outb(bus, p + 0, 3);  // (lo)
        outb(bus, p + 1, 0);  // (hi)

        // Set protocol (8 bits, no parity, one stop bit) and unset DLAB mode
        outb(bus, p + 3, 0b0000_0011);

        // and more ...
        outb(bus, p + 2, 0xC7);  // Enable FIFO, clear them, with 14-byte threshold
        outb(bus, p + 4, 0x0B);  // IRQs enabled, RTS/DSR set

        // Test loopback
        outb(bus, p + 4, 0x1E);  // Loopback mode
        outb(bus, p + 0, LOOPBACK_BYTE);  // Send 0xAE
        assert(bus@ =~= old(bus)@ + init_writes(p));
    }

    /// Ends the self-test with the byte that came back through the loop. If it
    /// is the byte that was sent, the line is put to work; if not, nothing is
    /// written and the line is not to be used.
    pub fn finish_init(&mut self, bus: &mut PortBus, echo: u8) -> (working: bool)
        requires
            old(self).base() + 4 <= u16::MAX,
        ensures
            final(self).base() == old(self).base(),
            working == (echo == LOOPBACK_BYTE),
            working ==> final(bus)@ == old(bus)@.push(normal_mode(old(self).base())),
            !working ==> final(bus)@ == old(bus)@,
    {
        if echo != LOOPBACK_BYTE {
            return false;
        }
        // Set normal mode
        outb(bus, self.port + 4, 0x0F);
        true
    }

    /// Sends one byte. The transmit buffer has to be empty.
    pub fn write_byte(&mut self, bus: &mut PortBus, value: u8)
        ensures
            final(self).base() == old(self).base(),
            final(bus)@ == old(bus)@.push(byte_write(old(self).base(), value)),
    {
        outb(bus, self.port, value);
    }

    /// Sends the bytes of `s`, in order.
    pub fn write_string(&mut self, bus: &mut PortBus, s: &str)
        ensures
            final(self).base() == old(self).base(),
            final(bus)@ == old(bus)@ + sent(old(self).base(), s.spec_bytes()),
    {
        let bytes = s.as_bytes();
        let mut i: usize = 0;
        while i < bytes.len()
            invariant
                i <= bytes@.len(),
                bytes@ == s.spec_bytes(),
                self.base() == old(self).base(),
                bus@ == old(bus)@ + sent(self.base(), bytes@.take(i as int)),
            decreases bytes.len() - i,
        {
            self.write_byte(bus, bytes[i]);
            assert(bus@ =~= old(bus)@ + sent(self.base(), bytes@.take(i + 1)));
            i += 1;
        }
        assert(bytes@.take(i as int) == bytes@);
    }
}

} // verus!
