//! What the kernel does about a page fault.
//!
//! The faulting address comes from the processor's fault address register,
//! the error code from what the handler was given. A fault is either reported
//! and the kernel halts, or the missing page is mapped and the faulting code
//! goes on; it never goes on while the address is still unmapped.
use crate::idt::IsrArg;
use crate::memory::paging::{
    address_of, is_canonical, lemma_map_then_translate, lemma_page_address_round_trip,
    map_page_to_frame, page_of, virtual_to_page, virtual_to_physical, MemoryView, PhysicalMemory,
};
use crate::memory::{after_answer, answer, Frame, FrameAllocator, VirtualAddress};
use vstd::prelude::*;

verus! {

/// A page fault: the address that was touched, and what the error code says
/// of the access.
#[derive(Debug, Copy, Clone, PartialEq, Eq)]
pub struct PageFault {
    pub address: VirtualAddress,
    /// Bit 0: the page was present, so the access broke a protection.
    pub present: bool,
    /// Bit 1: the access was a write.
    pub write: bool,
    /// Bit 2: the access came from user mode.
    pub user: bool,
}

/// What is to be done after a fault.
#[derive(Debug, Copy, Clone, PartialEq, Eq)]
pub enum FaultAction {
    /// The cause is gone: the faulting instruction may run again.
    Resume,
    /// The fault is reported and the kernel halts.
    Halt(PageFault),
}

/// The fault at `address` with `error_code`.
pub open spec fn spec_decode(address: VirtualAddress, error_code: u64) -> PageFault {
    PageFault {
        address,
        present: error_code % 2 == 1,
        write: error_code / 2 % 2 == 1,
        user: error_code / 4 % 2 == 1,
    }
}

#[verifier::when_used_as_spec(spec_decode)]
pub fn decode(address: VirtualAddress, error_code: u64) -> (fault: PageFault)
    ensures
        fault == spec_decode(address, error_code),
{
    assert((error_code & 1 != 0) <==> error_code % 2 == 1) by (bit_vector);
    assert((error_code & 2 != 0) <==> error_code / 2 % 2 == 1) by (bit_vector);
    assert((error_code & 4 != 0) <==> error_code / 4 % 2 == 1) by (bit_vector);
    PageFault {
        address,
        present: error_code & 1 != 0,
        write: error_code & 2 != 0,
        user: error_code & 4 != 0,
    }
}

/// The plain policy: every page fault is fatal.
pub fn report_page_fault(address: VirtualAddress, arg: &IsrArg) -> (action: FaultAction)
    ensures
        action == FaultAction::Halt(decode(address, arg.error_code)),
{
    FaultAction::Halt(decode(address, arg.error_code))
}

/// What recovery comes to: the action, the memory afterwards, and the frames
/// that are left to the allocator.
pub struct Recovery {
    pub action: FaultAction,
    pub memory: MemoryView,
    pub left: Seq<Frame>,
}

/// What comes of mapping the faulting page to `allocated`, the frame that the
/// allocator gave for it; `upcoming` are the frames that the allocator has for
/// the tables. With no frame, or one outside the memory, nothing is mapped and
/// the fault is fatal. Else the page is mapped, and the faulting code goes on
/// only if the address is mapped afterwards.
pub open spec fn recover_with(
    memory: MemoryView,
    fault: PageFault,
    allocated: Option<Frame>,
    upcoming: Seq<Frame>,
) -> Recovery {
    match allocated {
        Some(frame) if frame < memory.frame_count() => {
            let asked = memory.asking(page_of(fault.address), upcoming);
            let mapping = memory.map_page(page_of(fault.address), frame, asked.answers);
            Recovery {
                action: if mapping.result is Ok && mapping.memory.translate(fault.address)
                    is Some {
                    FaultAction::Resume
                } else {
                    FaultAction::Halt(fault)
                },
                memory: mapping.memory,
                left: asked.left,
            }
        },
        _ => Recovery { action: FaultAction::Halt(fault), memory, left: upcoming },
    }
}

/// Recovery by mapping: for a fault on a page that is not present, at a
/// canonical address, the allocator is asked for a frame, and the page is
/// mapped to it as `recover_with` says. Every other fault is fatal, and the
/// allocator is not asked.
pub open spec fn recover(memory: MemoryView, fault: PageFault, upcoming: Seq<Frame>) -> Recovery {
    if fault.present || !is_canonical(fault.address) {
        Recovery { action: FaultAction::Halt(fault), memory, left: upcoming }
    } else {
        recover_with(memory, fault, answer(upcoming), after_answer(upcoming))
    }
}

fn canonical(address: VirtualAddress) -> (yes: bool)
    ensures
        yes == is_canonical(address),
{
    address < 0x8000_0000_0000 || address >= 0xFFFF_8000_0000_0000
}

/// Maps the page of `fault` to `allocated`, the frame that the allocator gave
/// for it, and says whether the faulting code may go on.
pub fn map_fault_page<A: FrameAllocator>(
    mem: &mut PhysicalMemory,
    allocator: &mut A,
    fault: PageFault,
    allocated: Option<Frame>,
) -> (action: FaultAction)
    requires
        old(mem)@.wf(),
        is_canonical(fault.address),
    ensures
        final(mem)@.wf(),
        action == recover_with(old(mem)@, fault, allocated, old(allocator).upcoming()).action,
        final(mem)@ == recover_with(old(mem)@, fault, allocated, old(allocator).upcoming()).memory,
        final(allocator).upcoming() == recover_with(
            old(mem)@,
            fault,
            allocated,
            old(allocator).upcoming(),
        ).left,
        action is Resume ==> final(mem)@.translate(fault.address) is Some,
{
    let frame = match allocated {
        Some(frame) => frame,
        None => { return FaultAction::Halt(fault); },
    };
    if frame >= mem.frame_count() as u64 {
        return FaultAction::Halt(fault);
    }
    let mapped = map_page_to_frame(mem, virtual_to_page(fault.address), frame, allocator);
    if mapped.is_ok() && virtual_to_physical(mem, fault.address).is_some() {
        FaultAction::Resume
    } else {
        FaultAction::Halt(fault)
    }
}

/// The policy that maps on demand: see `recover`.
pub fn recover_page_fault<A: FrameAllocator>(
    mem: &mut PhysicalMemory,
    allocator: &mut A,
    address: VirtualAddress,
    arg: &IsrArg,
) -> (action: FaultAction)
    requires
        old(mem)@.wf(),
    ensures
        final(mem)@.wf(),
        action == recover(
            old(mem)@,
            decode(address, arg.error_code),
            old(allocator).upcoming(),
        ).action,
        final(mem)@ == recover(
            old(mem)@,
            decode(address, arg.error_code),
            old(allocator).upcoming(),
        ).memory,
        final(allocator).upcoming() == recover(
            old(mem)@,
            decode(address, arg.error_code),
            old(allocator).upcoming(),
        ).left,
        action is Resume ==> final(mem)@.translate(address) is Some,
{
    let fault = decode(address, arg.error_code);
    if fault.present || !canonical(address) {
        return FaultAction::Halt(fault);
    }
    let allocated = allocator.allocate();
    map_fault_page(mem, allocator, fault, allocated)
}

/// Recovery succeeds on a fault on a page that is not present, at a canonical
/// address, when the allocator gives a frame inside the memory, the mapping
/// finds its tables, and the frame and the four tables on the walk are five
/// different frames.
pub proof fn lemma_recover_resumes(memory: MemoryView, fault: PageFault, upcoming: Seq<Frame>)
    requires
        memory.wf(),
        !fault.present,
        is_canonical(fault.address),
        upcoming.len() > 0,
        upcoming[0] < memory.frame_count(),
        memory.map_page(
            page_of(fault.address),
            upcoming[0],
            memory.asking(page_of(fault.address), upcoming.skip(1)).answers,
        ).result is Ok,
        memory.walk_or_create(
            page_of(fault.address),
            memory.asking(page_of(fault.address), upcoming.skip(1)).answers,
        ).tables.push(upcoming[0]).no_duplicates(),
    ensures
        recover(memory, fault, upcoming).action == FaultAction::Resume,
{
    let page = page_of(fault.address);
    let answers = memory.asking(page, upcoming.skip(1)).answers;
    lemma_map_then_translate(memory, page, upcoming[0], answers);
    lemma_page_address_round_trip(fault.address, page);
    assert(page_of(address_of(page)) == page_of(fault.address));
}

} // verus!
