//! The privileged core of a small x86-64 kernel, written against an explicit
//! model of the machine: physical memory is an arena of frames, the I/O port
//! space is a trace of writes, and interrupt delivery is a function from the
//! descriptor table and the trap to the handler invocation.
pub mod bytes;
pub mod fault;
pub mod idt;
pub mod keyboard;
pub mod memory;
pub mod multiboot;
pub mod multiboot2;
pub mod pic;
pub mod port;
pub mod qemu;
pub mod uart;
pub mod util;
pub mod vga;
