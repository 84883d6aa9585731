//! The emulator's exit device. A byte `value` written to it ends the emulator
//! with the status `(value << 1) | 1`.
use crate::port::{byte_write, outb, PortBus};
use vstd::prelude::*;

verus! {

pub const EXIT_PORT: u16 = 0x501;

/// Ends the emulator with status 123.
pub const EXIT_SUCCESS: u8 = 61;

/// Ends the emulator with status 213.
pub const EXIT_FAIL: u8 = 106;

/// The status with which the emulator ends when `value` is written.
pub open spec fn exit_status(value: u8) -> int {
    2 * value + 1
}

pub fn exit(bus: &mut PortBus, value: u8)
    ensures
        final(bus)@ == old(bus)@.push(byte_write(EXIT_PORT, value)),
{
    outb(bus, EXIT_PORT, value);
}

pub fn exit_success(bus: &mut PortBus)
    ensures
        final(bus)@ == old(bus)@.push(byte_write(EXIT_PORT, EXIT_SUCCESS)),
        exit_status(EXIT_SUCCESS) == 123,
{
    exit(bus, EXIT_SUCCESS);
}

pub fn exit_fail(bus: &mut PortBus)
    ensures
        final(bus)@ == old(bus)@.push(byte_write(EXIT_PORT, EXIT_FAIL)),
        exit_status(EXIT_FAIL) == 213,
{
    exit(bus, EXIT_FAIL);
}

} // verus!
