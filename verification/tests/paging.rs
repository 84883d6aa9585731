use os::memory::paging::{
    get_child_table, get_child_table_address, get_or_create_child_table, get_p4_table,
    initialize_page, install_child_table, map_page_to_frame, page_p1_index, page_p2_index,
    page_p3_index, page_p4_index, page_to_virtual, unmap_page, virtual_to_page,
    virtual_to_physical, MapError, PhysicalMemory, ACTIVE_P4_TABLE_ADDRESS, MAX_PAGE, PRESENT,
    TABLE_SIZE, WRITABLE,
};
use os::memory::{FrameAllocator, SimpleFrameAllocator};

fn sixteen_frames() -> (PhysicalMemory, SimpleFrameAllocator) {
    // The top-level table is in frame 1; frames 0 and 1 are in use.
    let mem = PhysicalMemory::new(16, 1);
    let allocator = SimpleFrameAllocator::new(vec![(0, 16 * 4096)], vec![(0, 2 * 4096)]);
    (mem, allocator)
}

#[test]
fn page_of_an_address() {
    assert_eq!(virtual_to_page(0), 0);
    assert_eq!(virtual_to_page(0xdeadbeaf), 0xdeadb);
    assert_eq!(virtual_to_page(0x0000_7FFF_FFFF_FFFF), 0x7_FFFF_FFFF);
    assert_eq!(virtual_to_page(0xFFFF_8000_0000_0000), 0x8_0000_0000);
    assert_eq!(virtual_to_page(u64::MAX), MAX_PAGE);
}

#[test]
fn address_of_a_page() {
    assert_eq!(page_to_virtual(0), 0);
    assert_eq!(page_to_virtual(0xdeadb), 0xdeadb000);
    assert_eq!(page_to_virtual(0x7_FFFF_FFFF), 0x0000_7FFF_FFFF_F000);
    assert_eq!(page_to_virtual(0x8_0000_0000), 0xFFFF_8000_0000_0000);
    assert_eq!(page_to_virtual(MAX_PAGE), 0xFFFF_FFFF_FFFF_F000);
}

#[test]
fn address_to_page_and_back() {
    let addresses: [u64; 7] = [
        0,
        0x1000,
        0xdeadb000,
        0x0000_7FFF_FFFF_F000,
        0xFFFF_8000_0000_0000,
        0xFFFF_FF80_1234_5000,
        0xFFFF_FFFF_FFFF_F000,
    ];
    for address in addresses {
        assert_eq!(page_to_virtual(virtual_to_page(address)), address);
    }
    let pages: [u64; 5] = [0, 1, 0x7_FFFF_FFFF, 0x8_0000_0000, MAX_PAGE];
    for page in pages {
        assert_eq!(virtual_to_page(page_to_virtual(page)), page);
    }
}

#[test]
fn indices_of_a_page() {
    let page = 0o123_456_701_234;
    assert_eq!(page_p4_index(page), 0o123);
    assert_eq!(page_p3_index(page), 0o456);
    assert_eq!(page_p2_index(page), 0o701);
    assert_eq!(page_p1_index(page), 0o234);
    assert_eq!(page_p4_index(MAX_PAGE), 511);
    assert_eq!(page_p1_index(MAX_PAGE), 511);
    assert_eq!(page_p4_index(0), 0);
    assert_eq!(TABLE_SIZE, 512);
}

#[test]
fn address_of_a_child_table() {
    assert_eq!(ACTIVE_P4_TABLE_ADDRESS, 0o177777_777_777_777_777_0000);
    let p3 = get_child_table_address(ACTIVE_P4_TABLE_ADDRESS, 0o123);
    assert_eq!(p3, 0o177777_777_777_777_123_0000);
    let p2 = get_child_table_address(p3, 0o456);
    assert_eq!(p2, 0o177777_777_777_123_456_0000);
    let p1 = get_child_table_address(p2, 0o701);
    assert_eq!(p1, 0o177777_777_123_456_701_0000);
}

#[test]
fn blank_memory_maps_only_its_tables() {
    let (mem, _) = sixteen_frames();
    assert_eq!(mem.frame_count(), 16);
    assert_eq!(get_p4_table(&mem), 1);
    assert_eq!(mem.read_entry(1, 511), 0x1000 | PRESENT | WRITABLE);
    assert_eq!(mem.read_entry(1, 0), 0);
    assert_eq!(get_child_table(&mem, 1, 511), Some(1));
    assert_eq!(get_child_table(&mem, 1, 0), None);
    assert_eq!(virtual_to_physical(&mem, 0), None);
    assert_eq!(virtual_to_physical(&mem, 0xdeadbeaf), None);
    assert_eq!(virtual_to_physical(&mem, ACTIVE_P4_TABLE_ADDRESS), Some(0x1000));
    assert_eq!(virtual_to_physical(&mem, ACTIVE_P4_TABLE_ADDRESS + 0xFF8), Some(0x1FF8));
}

#[test]
fn mapped_page_is_found_and_unmapped_page_is_not() {
    let (mut mem, mut allocator) = sixteen_frames();
    let address = 0xdeadbeaf;
    let page = virtual_to_page(address);
    let frame = allocator.allocate().unwrap();
    assert_eq!(frame, 2);
    assert_eq!(map_page_to_frame(&mut mem, page, frame, &mut allocator), Ok(()));
    assert_eq!(virtual_to_physical(&mem, page_to_virtual(page)), Some(frame * 4096));
    assert_eq!(virtual_to_physical(&mem, address), Some(0x2eaf));
    // Three tables were made, in the frames 3, 4 and 5.
    assert_eq!(allocator.allocate(), Some(6));
    unmap_page(&mut mem, page);
    assert_eq!(virtual_to_physical(&mem, page_to_virtual(page)), None);
    assert_eq!(virtual_to_physical(&mem, address), None);
}

#[test]
fn tables_are_made_once() {
    let (mut mem, mut allocator) = sixteen_frames();
    assert_eq!(map_page_to_frame(&mut mem, 0, 10, &mut allocator), Ok(()));
    assert_eq!(get_child_table(&mem, 1, 0), Some(2));
    assert_eq!(get_child_table(&mem, 2, 0), Some(3));
    assert_eq!(get_child_table(&mem, 3, 0), Some(4));
    assert_eq!(mem.read_entry(4, 0), 10 * 4096 | PRESENT | WRITABLE);
    // The neighbour shares all three tables.
    assert_eq!(map_page_to_frame(&mut mem, 1, 11, &mut allocator), Ok(()));
    assert_eq!(mem.read_entry(4, 1), 11 * 4096 | PRESENT | WRITABLE);
    // A page under another second-level entry needs one table more.
    assert_eq!(map_page_to_frame(&mut mem, 512, 12, &mut allocator), Ok(()));
    assert_eq!(get_child_table(&mem, 3, 1), Some(5));
    assert_eq!(allocator.allocate(), Some(6));
    assert_eq!(virtual_to_physical(&mem, 0x0123), Some(10 * 4096 + 0x123));
    assert_eq!(virtual_to_physical(&mem, 0x1fff), Some(11 * 4096 + 0xfff));
    assert_eq!(virtual_to_physical(&mem, 512 * 4096), Some(12 * 4096));
    assert_eq!(virtual_to_physical(&mem, 2 * 4096), None);
}

#[test]
fn mapping_again_overwrites_the_entry() {
    let (mut mem, mut allocator) = sixteen_frames();
    assert_eq!(map_page_to_frame(&mut mem, 7, 10, &mut allocator), Ok(()));
    assert_eq!(map_page_to_frame(&mut mem, 7, 11, &mut allocator), Ok(()));
    assert_eq!(virtual_to_physical(&mem, 7 * 4096), Some(11 * 4096));
    assert_eq!(allocator.allocate(), Some(5));
}

#[test]
fn mapped_frame_and_new_tables_are_cleared() {
    let (mut mem, mut allocator) = sixteen_frames();
    for frame in 2..6 {
        for index in 0..512 {
            mem.write_entry(frame, index, 0xAAAA_AAAA_AAAA_AAA8);
        }
    }
    mem.write_entry(9, 5, 77);
    mem.write_entry(10, 5, 78);
    assert_eq!(map_page_to_frame(&mut mem, 0, 9, &mut allocator), Ok(()));
    for index in 0..512 {
        assert_eq!(mem.read_entry(9, index), 0);
    }
    // Frame 2 is now the third-level table, with one entry.
    assert_eq!(mem.read_entry(2, 0), 3 * 4096 | 3);
    for index in 1..512 {
        assert_eq!(mem.read_entry(2, index), 0);
    }
    assert_eq!(mem.read_entry(10, 5), 78);
    assert_eq!(mem.read_entry(5, 0), 0xAAAA_AAAA_AAAA_AAA8);
}

#[test]
fn mapping_fails_when_frames_run_out() {
    let mut mem = PhysicalMemory::new(16, 1);
    let mut allocator = SimpleFrameAllocator::new(vec![(0x2000, 0x4000)], vec![]);
    assert_eq!(map_page_to_frame(&mut mem, 0, 10, &mut allocator), Err(MapError::OutOfFrames));
    // The two tables that could be made stay in place.
    assert_eq!(get_child_table(&mem, 1, 0), Some(2));
    assert_eq!(get_child_table(&mem, 2, 0), Some(3));
    assert_eq!(get_child_table(&mem, 3, 0), None);
    assert_eq!(virtual_to_physical(&mem, 0), None);
}

#[test]
fn mapping_fails_on_a_frame_outside_memory() {
    let mut mem = PhysicalMemory::new(16, 1);
    let mut allocator = SimpleFrameAllocator::new(vec![(16 * 4096, 32 * 4096)], vec![]);
    assert_eq!(
        map_page_to_frame(&mut mem, 0, 10, &mut allocator),
        Err(MapError::FrameOutsideMemory)
    );
    assert_eq!(get_child_table(&mem, 1, 0), None);
    assert_eq!(allocator.allocate(), Some(17));
}

#[test]
fn child_table_is_made_where_missing() {
    let (mut mem, mut allocator) = sixteen_frames();
    assert_eq!(get_or_create_child_table(&mut mem, 1, 7, &mut allocator), Ok(2));
    assert_eq!(mem.read_entry(1, 7), 2 * 4096 | PRESENT | WRITABLE);
    assert_eq!(get_or_create_child_table(&mut mem, 1, 7, &mut allocator), Ok(2));
    assert_eq!(allocator.allocate(), Some(3));
    assert_eq!(install_child_table(&mut mem, 1, 8, None), Err(MapError::OutOfFrames));
    assert_eq!(install_child_table(&mut mem, 1, 8, Some(16)), Err(MapError::FrameOutsideMemory));
    assert_eq!(mem.read_entry(1, 8), 0);
    assert_eq!(install_child_table(&mut mem, 1, 8, Some(15)), Ok(15));
    assert_eq!(get_child_table(&mem, 1, 8), Some(15));
}

#[test]
fn entry_that_points_outside_memory_is_no_table() {
    let (mut mem, _) = sixteen_frames();
    mem.write_entry(1, 3, 16 * 4096 | PRESENT | WRITABLE);
    assert_eq!(get_child_table(&mem, 1, 3), None);
    mem.write_entry(1, 3, 15 * 4096 | WRITABLE);
    assert_eq!(get_child_table(&mem, 1, 3), None);
    mem.write_entry(1, 3, 15 * 4096 | PRESENT);
    assert_eq!(get_child_table(&mem, 1, 3), Some(15));
}

#[test]
fn tables_are_reached_through_the_self_map() {
    let (mut mem, mut allocator) = sixteen_frames();
    let page = 0o123_456_701_234;
    assert_eq!(map_page_to_frame(&mut mem, page, 10, &mut allocator), Ok(()));
    let p4 = ACTIVE_P4_TABLE_ADDRESS;
    assert_eq!(virtual_to_physical(&mem, p4), Some(1 * 4096));
    let p3 = get_child_table_address(p4, page_p4_index(page));
    assert_eq!(virtual_to_physical(&mem, p3), Some(2 * 4096));
    let p2 = get_child_table_address(p3, page_p3_index(page));
    assert_eq!(virtual_to_physical(&mem, p2), Some(3 * 4096));
    let p1 = get_child_table_address(p2, page_p2_index(page));
    assert_eq!(virtual_to_physical(&mem, p1), Some(4 * 4096));
    let missing = get_child_table_address(p4, 5);
    assert_eq!(virtual_to_physical(&mem, missing), None);
}

#[test]
fn initialize_page_clears_the_mapped_frame() {
    let (mut mem, mut allocator) = sixteen_frames();
    assert_eq!(map_page_to_frame(&mut mem, 3, 10, &mut allocator), Ok(()));
    mem.write_entry(10, 0, 1234);
    mem.write_entry(10, 511, 5678);
    mem.write_entry(11, 0, 99);
    initialize_page(&mut mem, 3);
    assert_eq!(mem.read_entry(10, 0), 0);
    assert_eq!(mem.read_entry(10, 511), 0);
    assert_eq!(mem.read_entry(11, 0), 99);
    assert_eq!(virtual_to_physical(&mem, 3 * 4096), Some(10 * 4096));
}

#[test]
fn mapping_the_self_map_slot_breaks_the_walk() {
    // The page whose four indices are 511 has the top-level table as all its
    // tables: its entry is the self-map entry.
    let (mut mem, mut allocator) = sixteen_frames();
    assert_eq!(map_page_to_frame(&mut mem, MAX_PAGE, 10, &mut allocator), Ok(()));
    assert_eq!(mem.read_entry(1, 511), 10 * 4096 | PRESENT | WRITABLE);
    assert_eq!(virtual_to_physical(&mem, page_to_virtual(MAX_PAGE)), None);
}

#[test]
fn unmapping_keeps_the_tables() {
    let (mut mem, mut allocator) = sixteen_frames();
    assert_eq!(map_page_to_frame(&mut mem, 0, 10, &mut allocator), Ok(()));
    assert_eq!(map_page_to_frame(&mut mem, 1, 11, &mut allocator), Ok(()));
    unmap_page(&mut mem, 0);
    assert_eq!(mem.read_entry(4, 0), 0);
    assert_eq!(get_child_table(&mem, 1, 0), Some(2));
    assert_eq!(get_child_table(&mem, 2, 0), Some(3));
    assert_eq!(get_child_table(&mem, 3, 0), Some(4));
    assert_eq!(virtual_to_physical(&mem, 0), None);
    assert_eq!(virtual_to_physical(&mem, 4096), Some(11 * 4096));
}

#[test]
fn tables_take_the_next_frames_of_the_allocator() {
    let mut mem = PhysicalMemory::new(16, 1);
    let mut allocator =
        SimpleFrameAllocator::new(vec![(7 * 4096, 16 * 4096)], vec![(8 * 4096, 12 * 4096)]);
    assert_eq!(map_page_to_frame(&mut mem, 0o001_002_003_004, 9, &mut allocator), Ok(()));
    assert_eq!(get_child_table(&mem, 1, 1), Some(7));
    assert_eq!(get_child_table(&mem, 7, 2), Some(12));
    assert_eq!(get_child_table(&mem, 12, 3), Some(13));
    assert_eq!(mem.read_entry(13, 4), 9 * 4096 | 3);
    assert_eq!(allocator.allocate(), Some(14));
    assert_eq!(virtual_to_physical(&mem, 0o001_002_003_004_0000), Some(9 * 4096));
}

#[test]
fn frame_that_is_also_a_table_is_cleared_with_it() {
    // The allocator gives frame 9 for the last table, and the page is mapped
    // to frame 9 as well: clearing the page clears the entry just written.
    let mut mem = PhysicalMemory::new(16, 1);
    let mut allocator = SimpleFrameAllocator::new(vec![(7 * 4096, 10 * 4096)], vec![]);
    assert_eq!(map_page_to_frame(&mut mem, 0, 9, &mut allocator), Ok(()));
    assert_eq!(get_child_table(&mem, 8, 0), Some(9));
    assert_eq!(mem.read_entry(9, 0), 0);
    assert_eq!(virtual_to_physical(&mem, 0), None);
    assert_eq!(allocator.allocate(), None);
}

#[test]
fn present_entry_that_points_outside_memory_is_not_replaced() {
    let (mut mem, mut allocator) = sixteen_frames();
    let outside = 16 * 4096 | PRESENT | WRITABLE;
    mem.write_entry(1, 0, outside);
    assert_eq!(
        get_or_create_child_table(&mut mem, 1, 0, &mut allocator),
        Err(MapError::FrameOutsideMemory)
    );
    assert_eq!(
        map_page_to_frame(&mut mem, 0, 10, &mut allocator),
        Err(MapError::FrameOutsideMemory)
    );
    assert_eq!(mem.read_entry(1, 0), outside);
    // The allocator was not asked.
    assert_eq!(allocator.allocate(), Some(2));
}

#[test]
fn allocator_is_asked_once_for_each_missing_table() {
    let (mut mem, mut allocator) = sixteen_frames();
    // Three tables are missing: the frames 2, 3 and 4 are taken.
    assert_eq!(map_page_to_frame(&mut mem, 0, 10, &mut allocator), Ok(()));
    // One table is missing: frame 5 is taken.
    assert_eq!(map_page_to_frame(&mut mem, 512, 11, &mut allocator), Ok(()));
    // None is missing.
    assert_eq!(map_page_to_frame(&mut mem, 513, 12, &mut allocator), Ok(()));
    // Two are missing: the frames 6 and 7 are taken.
    assert_eq!(map_page_to_frame(&mut mem, 512 * 512, 13, &mut allocator), Ok(()));
    assert_eq!(allocator.allocate(), Some(8));
}
