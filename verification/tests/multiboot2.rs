use os::memory::{FrameAllocator, SimpleFrameAllocator};
use os::multiboot2::{
    BootInfo, FramebufferTag, MemoryMapEntry, SectionHeader, Tag, TagType,
};

fn put32(bytes: &mut Vec<u8>, value: u32) {
    bytes.extend_from_slice(&value.to_le_bytes());
}

fn put64(bytes: &mut Vec<u8>, value: u64) {
    bytes.extend_from_slice(&value.to_le_bytes());
}

fn pad(bytes: &mut Vec<u8>) {
    while bytes.len() % 8 != 0 {
        bytes.push(0xEE);
    }
}

fn put_header(bytes: &mut Vec<u8>, addr: u64, size: u64) {
    put32(bytes, 1);
    put32(bytes, 1);
    put64(bytes, 6);
    put64(bytes, addr);
    put64(bytes, 0x1000);
    put64(bytes, size);
    put32(bytes, 0);
    put32(bytes, 0);
    put64(bytes, 16);
    put64(bytes, 0);
}

fn block() -> Vec<u8> {
    let mut bytes: Vec<u8> = Vec::new();
    put32(&mut bytes, 368);
    put32(&mut bytes, 0);
    // A command line of five bytes, padded to 16.
    put32(&mut bytes, 1);
    put32(&mut bytes, 13);
    bytes.extend_from_slice(b"boot\0");
    pad(&mut bytes);
    // The memory map, at offset 24.
    put32(&mut bytes, 6);
    put32(&mut bytes, 88);
    put32(&mut bytes, 24);
    put32(&mut bytes, 0);
    for (base, length, kind) in
        [(0u64, 0x9FC00u64, 1u32), (0x9FC00, 0x400, 2), (0x100000, 0x7EE0000, 1)]
    {
        put64(&mut bytes, base);
        put64(&mut bytes, length);
        put32(&mut bytes, kind);
        put32(&mut bytes, 0);
    }
    // The framebuffer, at offset 112.
    put32(&mut bytes, 8);
    put32(&mut bytes, 32);
    put64(&mut bytes, 0xb8000);
    put32(&mut bytes, 160);
    put32(&mut bytes, 80);
    put32(&mut bytes, 25);
    bytes.push(16);
    bytes.push(2);
    bytes.push(0);
    bytes.push(0);
    // The section headers, at offset 144.
    put32(&mut bytes, 9);
    put32(&mut bytes, 212);
    put32(&mut bytes, 3);
    put32(&mut bytes, 64);
    put32(&mut bytes, 2);
    put_header(&mut bytes, 0, 0);
    put_header(&mut bytes, 0x100000, 0x3000);
    put_header(&mut bytes, 0x104000, 0x1000);
    pad(&mut bytes);
    // The end, at offset 360.
    put32(&mut bytes, 0);
    put32(&mut bytes, 8);
    assert_eq!(bytes.len(), 368);
    bytes
}

fn info() -> BootInfo {
    BootInfo::new(0x10000, block()).unwrap()
}

#[test]
fn block_needs_its_header_and_a_place_in_memory() {
    assert!(BootInfo::new(0, vec![0; 7]).is_none());
    assert!(BootInfo::new(0, vec![0; 8]).is_some());
    assert!(BootInfo::new(0xFFFF_FFF8, vec![0; 8]).is_some());
    assert!(BootInfo::new(0xFFFF_FFF9, vec![0; 8]).is_none());
    let info = info();
    assert_eq!(info.address(), 0x10000);
    assert_eq!(info.total_size(), 368);
}

#[test]
fn tags_come_in_order_until_the_end_tag() {
    let info = info();
    let mut walk = info.tags();
    assert_eq!(walk.next(&info), Some((Tag { type_: 1, size: 13 }, 0x10008)));
    assert_eq!(walk.next(&info), Some((Tag { type_: 6, size: 88 }, 0x10018)));
    assert_eq!(walk.next(&info), Some((Tag { type_: 8, size: 32 }, 0x10070)));
    assert_eq!(walk.next(&info), Some((Tag { type_: 9, size: 212 }, 0x10090)));
    assert_eq!(walk.next(&info), None);
    assert_eq!(walk.next(&info), None);
}

#[test]
fn tags_end_where_the_block_ends() {
    // No end tag: the walk stops where no whole tag head is left.
    let mut bytes = block();
    bytes.truncate(364);
    let info = BootInfo::new(0x10000, bytes).unwrap();
    let mut walk = info.tags();
    let mut count = 0;
    while walk.next(&info).is_some() {
        count += 1;
    }
    assert_eq!(count, 4);
}

#[test]
fn tag_of_size_zero_is_returned_and_the_walk_stays() {
    let mut bytes = vec![0u8; 8];
    put32(&mut bytes, 5);
    put32(&mut bytes, 0);
    put32(&mut bytes, 6);
    put32(&mut bytes, 16);
    put32(&mut bytes, 24);
    put32(&mut bytes, 0);
    let info = BootInfo::new(0x2000, bytes).unwrap();
    let mut walk = info.tags();
    assert_eq!(walk.next(&info), Some((Tag { type_: 5, size: 0 }, 0x2008)));
    assert_eq!(walk.next(&info), Some((Tag { type_: 5, size: 0 }, 0x2008)));
    assert_eq!(walk.next(&info), Some((Tag { type_: 5, size: 0 }, 0x2008)));
    // The search looks at that tag and ends there.
    assert_eq!(info.find_tag(TagType::MemoryMap), None);
    assert!(info.memory_map().is_none());
}

#[test]
fn tag_of_small_size_moves_the_walk_to_the_next_multiple_of_eight() {
    let mut bytes = vec![0u8; 8];
    put32(&mut bytes, 5);
    put32(&mut bytes, 3);
    put32(&mut bytes, 6);
    put32(&mut bytes, 16);
    put32(&mut bytes, 24);
    put32(&mut bytes, 0);
    put32(&mut bytes, 0);
    put32(&mut bytes, 8);
    let info = BootInfo::new(0x2000, bytes).unwrap();
    let mut walk = info.tags();
    assert_eq!(walk.next(&info), Some((Tag { type_: 5, size: 3 }, 0x2008)));
    assert_eq!(walk.next(&info), Some((Tag { type_: 6, size: 16 }, 0x2010)));
    assert_eq!(walk.next(&info), None);
    assert_eq!(info.find_tag(TagType::MemoryMap), Some((Tag { type_: 6, size: 16 }, 0x2010)));
}

#[test]
fn entries_of_size_zero_are_returned_and_the_walk_stays() {
    let mut bytes = vec![0u8; 8];
    // A memory map whose tag gives 0 as the size of an entry.
    put32(&mut bytes, 6);
    put32(&mut bytes, 40);
    put32(&mut bytes, 0);
    put32(&mut bytes, 0);
    put64(&mut bytes, 0x1000);
    put64(&mut bytes, 0x2000);
    put32(&mut bytes, 1);
    put32(&mut bytes, 0);
    // Section headers whose tag gives 0 as the size of a header.
    put32(&mut bytes, 9);
    put32(&mut bytes, 84);
    put32(&mut bytes, 1);
    put32(&mut bytes, 0);
    put32(&mut bytes, 0);
    put_header(&mut bytes, 0x100000, 0x3000);
    pad(&mut bytes);
    put32(&mut bytes, 0);
    put32(&mut bytes, 8);
    let info = BootInfo::new(0x4000, bytes).unwrap();
    let first = MemoryMapEntry { base_addr: 0x1000, length: 0x2000, type_: 1, reserved: 0 };
    let mut entries = info.memory_map().unwrap();
    assert_eq!(entries.next(&info), Some(first));
    assert_eq!(entries.next(&info), Some(first));
    let mut headers = info.section_headers().unwrap();
    assert_eq!(headers.next(&info).unwrap().addr, 0x100000);
    assert_eq!(headers.next(&info).unwrap().addr, 0x100000);
    // The collecting functions look at the one entry and end.
    assert_eq!(info.usable_memory(), vec![(0x1000, 0x3000)]);
    assert_eq!(info.occupied_memory(), vec![(0x4000, 0x4000), (0x100000, 0x103000)]);
}

#[test]
fn tag_is_found_by_its_kind() {
    let info = info();
    assert_eq!(info.find_tag(TagType::MemoryMap), Some((Tag { type_: 6, size: 88 }, 0x10018)));
    assert_eq!(
        info.find_tag(TagType::SectionHeaderTable),
        Some((Tag { type_: 9, size: 212 }, 0x10090))
    );
    assert_eq!(info.find_tag(TagType::End), None);
    assert_eq!(TagType::End.code(), 0);
    assert_eq!(TagType::MemoryMap.code(), 6);
    assert_eq!(TagType::Framebuffer.code(), 8);
    assert_eq!(TagType::SectionHeaderTable.code(), 9);
}

#[test]
fn framebuffer_tag_is_read() {
    assert_eq!(
        info().framebuffer(),
        Some(FramebufferTag {
            type_: 8,
            size: 32,
            addr: 0xb8000,
            pitch: 160,
            width: 80,
            height: 25,
            bpp: 16,
            type2_: 2,
        })
    );
    let empty = BootInfo::new(0, vec![0; 16]).unwrap();
    assert_eq!(empty.framebuffer(), None);
    assert!(empty.memory_map().is_none());
    assert!(empty.section_headers().is_none());
}

#[test]
fn memory_map_entries_are_read() {
    let info = info();
    let mut walk = info.memory_map().unwrap();
    assert_eq!(
        walk.next(&info),
        Some(MemoryMapEntry { base_addr: 0, length: 0x9FC00, type_: 1, reserved: 0 })
    );
    assert_eq!(
        walk.next(&info),
        Some(MemoryMapEntry { base_addr: 0x9FC00, length: 0x400, type_: 2, reserved: 0 })
    );
    let third = walk.next(&info).unwrap();
    assert_eq!(third.base_addr, 0x100000);
    assert_eq!(third.length, 0x7EE0000);
    assert_eq!(walk.next(&info), None);
}

#[test]
fn section_headers_are_read() {
    let info = info();
    let mut walk = info.section_headers().unwrap();
    assert_eq!(walk.next(&info).unwrap().size, 0);
    assert_eq!(
        walk.next(&info),
        Some(SectionHeader {
            name: 1,
            type_: 1,
            flags: 6,
            addr: 0x100000,
            offset: 0x1000,
            size: 0x3000,
            link: 0,
            info: 0,
            addralign: 16,
            entsize: 0,
        })
    );
    assert_eq!(walk.next(&info).unwrap().addr, 0x104000);
    assert_eq!(walk.next(&info), None);
    assert_eq!(SectionHeader::default().size, 0);
}

#[test]
fn usable_and_occupied_memory() {
    let info = info();
    assert_eq!(info.usable_memory(), vec![(0, 0x9FC00), (0x100000, 0x7FE0000)]);
    assert_eq!(info.occupied_memory(), vec![(0x10000, 0x10170), (0x100000, 0x105000)]);
}

#[test]
fn allocator_over_the_boot_information() {
    let info = info();
    let mut allocator = SimpleFrameAllocator::new(info.usable_memory(), info.occupied_memory());
    let mut frames: Vec<u64> = Vec::new();
    for _ in 0..0x110 {
        frames.push(allocator.allocate().unwrap());
    }
    // The frames 0 to 0x9e are free: the block does not fill frame 0x10, so
    // the frame is not held by an occupied range. The usable memory above
    // 1 MiB starts with the kernel's five frames.
    let mut expected: Vec<u64> = (0..0x9f).collect();
    expected.extend(0x105..0x105 + (0x110 - 0x9f));
    assert_eq!(frames, expected);
}
