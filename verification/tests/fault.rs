use os::fault::{
    decode, map_fault_page, recover_page_fault, report_page_fault, FaultAction, PageFault,
};
use os::idt::{IsrArg, SavedRegisters};
use os::memory::paging::{virtual_to_physical, PhysicalMemory};
use os::memory::{FrameAllocator, SimpleFrameAllocator};

fn arg(error_code: u64) -> IsrArg {
    IsrArg { saved: SavedRegisters::default(), error_code }
}

fn fault(address: u64, present: bool, write: bool, user: bool) -> PageFault {
    PageFault { address, present, write, user }
}

#[test]
fn error_code_of_a_page_fault() {
    assert_eq!(decode(0xdeadbeaf, 0), fault(0xdeadbeaf, false, false, false));
    assert_eq!(decode(0xdeadbeaf, 1), fault(0xdeadbeaf, true, false, false));
    assert_eq!(decode(0xdeadbeaf, 2), fault(0xdeadbeaf, false, true, false));
    assert_eq!(decode(0xdeadbeaf, 4), fault(0xdeadbeaf, false, false, true));
    assert_eq!(decode(0x10, 7), fault(0x10, true, true, true));
    assert_eq!(decode(0x10, 0xFFF8), fault(0x10, false, false, false));
}

#[test]
fn plain_policy_halts_on_every_fault() {
    assert_eq!(
        report_page_fault(0xdeadbeaf, &arg(2)),
        FaultAction::Halt(fault(0xdeadbeaf, false, true, false))
    );
    assert_eq!(report_page_fault(0, &arg(5)), FaultAction::Halt(fault(0, true, false, true)));
}

#[test]
fn missing_page_is_mapped_and_the_code_goes_on() {
    let mut mem = PhysicalMemory::new(16, 1);
    let mut allocator = SimpleFrameAllocator::new(vec![(0, 16 * 4096)], vec![(0, 2 * 4096)]);
    let address = 0xdeadbeaf;
    assert_eq!(virtual_to_physical(&mem, address), None);
    assert_eq!(
        recover_page_fault(&mut mem, &mut allocator, address, &arg(2)),
        FaultAction::Resume
    );
    assert_eq!(virtual_to_physical(&mem, address), Some(2 * 4096 + 0xeaf));
    assert_eq!(allocator.allocate(), Some(6));
}

#[test]
fn protection_fault_halts() {
    let mut mem = PhysicalMemory::new(16, 1);
    let mut allocator = SimpleFrameAllocator::new(vec![(0, 16 * 4096)], vec![(0, 2 * 4096)]);
    assert_eq!(
        recover_page_fault(&mut mem, &mut allocator, 0x5000, &arg(3)),
        FaultAction::Halt(fault(0x5000, true, true, false))
    );
    assert_eq!(virtual_to_physical(&mem, 0x5000), None);
    assert_eq!(allocator.allocate(), Some(2));
}

#[test]
fn fault_at_an_address_that_is_not_canonical_halts() {
    let mut mem = PhysicalMemory::new(16, 1);
    let mut allocator = SimpleFrameAllocator::new(vec![(0, 16 * 4096)], vec![(0, 2 * 4096)]);
    let address = 0x0000_8000_0000_0000;
    assert_eq!(
        recover_page_fault(&mut mem, &mut allocator, address, &arg(0)),
        FaultAction::Halt(fault(address, false, false, false))
    );
    assert_eq!(allocator.allocate(), Some(2));
}

#[test]
fn fault_without_frames_halts() {
    let mut mem = PhysicalMemory::new(16, 1);
    let mut none = SimpleFrameAllocator::new(vec![], vec![]);
    assert_eq!(
        recover_page_fault(&mut mem, &mut none, 0x5000, &arg(0)),
        FaultAction::Halt(fault(0x5000, false, false, false))
    );
    // One frame for the page, but none for the tables.
    let mut one = SimpleFrameAllocator::new(vec![(0x2000, 0x3000)], vec![]);
    assert_eq!(
        recover_page_fault(&mut mem, &mut one, 0x5000, &arg(0)),
        FaultAction::Halt(fault(0x5000, false, false, false))
    );
    assert_eq!(virtual_to_physical(&mem, 0x5000), None);
    // A frame that the memory does not have.
    let mut outside = SimpleFrameAllocator::new(vec![(16 * 4096, 17 * 4096)], vec![]);
    assert_eq!(
        recover_page_fault(&mut mem, &mut outside, 0x5000, &arg(0)),
        FaultAction::Halt(fault(0x5000, false, false, false))
    );
}

#[test]
fn fault_on_the_self_map_slot_halts() {
    // Mapping the page whose entry is the self-map entry leaves it unmapped.
    let mut mem = PhysicalMemory::new(16, 1);
    let mut allocator = SimpleFrameAllocator::new(vec![(0, 16 * 4096)], vec![(0, 2 * 4096)]);
    let address = 0xFFFF_FFFF_FFFF_F000;
    assert_eq!(
        recover_page_fault(&mut mem, &mut allocator, address, &arg(0)),
        FaultAction::Halt(fault(address, false, false, false))
    );
}

#[test]
fn fault_page_is_mapped_to_the_frame_given() {
    let mut mem = PhysicalMemory::new(16, 1);
    let mut allocator = SimpleFrameAllocator::new(vec![(0, 16 * 4096)], vec![(0, 2 * 4096)]);
    let missing = fault(0x7123, false, true, false);
    assert_eq!(map_fault_page(&mut mem, &mut allocator, missing, None), FaultAction::Halt(missing));
    assert_eq!(
        map_fault_page(&mut mem, &mut allocator, missing, Some(16)),
        FaultAction::Halt(missing)
    );
    assert_eq!(virtual_to_physical(&mem, 0x7123), None);
    assert_eq!(
        map_fault_page(&mut mem, &mut allocator, missing, Some(15)),
        FaultAction::Resume
    );
    assert_eq!(virtual_to_physical(&mem, 0x7123), Some(15 * 4096 + 0x123));
    // The three tables took the frames 2, 3 and 4.
    assert_eq!(allocator.allocate(), Some(5));
}
