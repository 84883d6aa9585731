//! The boot information that a loader of the first Multiboot version leaves
//! in memory: one fixed structure, which points at the memory map and at the
//! kernel's section headers elsewhere in memory.
use crate::bytes::{Region, RegionView};
use crate::multiboot2::{read_section_header, section_header_at};
use vstd::prelude::*;

verus! {

/// Bit 5 of the flags: the fields on the section headers are valid.
pub const FLAG_ELF_SECTION: u32 = 32;

/// Bit 6 of the flags: the fields on the memory map are valid.
pub const FLAG_MEMORY_MAP: u32 = 64;

/// Bytes of the boot information structure.
pub const BOOT_INFO_BYTES: u64 = 116;

/// Bytes of an entry of the memory map as far as it is read.
pub const MEMORY_MAP_INFO_BYTES: u64 = 24;

/// Bytes of a section header.
pub const SECTION_HEADER_BYTES: u32 = 64;

/// The boot information structure.
#[derive(Debug, Copy, Clone, PartialEq, Eq)]
pub struct BootInfo {
    pub flags: u32,
    pub mem_lower: u32,
    pub mem_upper: u32,
    pub boot_device: u32,
    pub cmdline: u32,
    pub mods_count: u32,
    pub mods_addr: u32,
    pub syms: [u32; 4],
    pub mmap_length: u32,
    pub mmap_addr: u32,
    pub drives_length: u32,
    pub drives_addr: u32,
    pub config_table: u32,
    pub boot_loader_name: u32,
    pub apm_table: u32,
    pub vbe_control_info: u32,
    pub vbe_mode_info: u32,
    pub vbe_mode: u16,
    pub vbe_interface_seg: u16,
    pub vbe_interface_off: u16,
    pub vbe_interface_len: u16,
    pub framebuffer_addr: u64,
    pub framebuffer_pitch: u32,
    pub framebuffer_width: u32,
    pub framebuffer_height: u32,
    pub framebuffer_bpp: u8,
    pub framebuffer_type: u8,
    pub color_info: [u8; 6],
}

/// One entry of the memory map. Its `size` does not count the field itself;
/// type 1 is usable memory.
#[derive(Debug, Copy, Clone, PartialEq, Eq)]
pub struct MemoryMapInfo {
    pub size: u32,
    pub addr: u64,
    pub length: u64,
    pub type_: u32,
}

/// Where the kernel's section headers are: how many, of what size, at what
/// address, and which of them holds the names.
#[derive(Debug, Copy, Clone, PartialEq, Eq)]
pub struct SectionHeadersInfo {
    pub num: u32,
    pub size: u32,
    pub addr: u32,
    pub shndx: u32,
}

/// A section header of the kernel's ELF image.
#[derive(Debug, Copy, Clone, PartialEq, Eq)]
pub struct SectionHeader {
    pub name: u32,
    pub type_: u32,
    pub flags: u64,
    pub addr: u64,
    pub offset: u64,
    pub size: u64,
    pub link: u32,
    pub info: u32,
    pub addralign: u64,
    pub entsize: u64,
}

/// The place of a walk over the memory map.
pub struct MemoryMapInfoIterator {
    addr: u32,
    length: u32,
    offset: u64,
}

/// The place of a walk over the section headers.
pub struct SectionHeaderIterator {
    info: SectionHeadersInfo,
    count: u32,
}

/// The smallest of three.
pub open spec fn min3(a: int, b: int, c: int) -> int {
    if a <= b && a <= c {
        a
    } else if b <= c {
        b
    } else {
        c
    }
}

/// The largest of three.
pub open spec fn max3(a: int, b: int, c: int) -> int {
    if a >= b && a >= c {
        a
    } else if b >= c {
        b
    } else {
        c
    }
}

/// Whether bit 6 of `flags` is set.
pub open spec fn has_memory_map(flags: u32) -> bool {
    flags / 64 % 2 == 1
}

/// Whether bit 5 of `flags` is set.
pub open spec fn has_sections(flags: u32) -> bool {
    flags / 32 % 2 == 1
}

/// The entry of the memory map at `address`.
pub open spec fn memory_map_info_at(memory: RegionView, address: int) -> MemoryMapInfo {
    MemoryMapInfo {
        size: memory.u32_at(address),
        addr: memory.u64_at(address + 4),
        length: memory.u64_at(address + 12),
        type_: memory.u32_at(address + 20),
    }
}

/// The entry that the walk over a memory map of `length` bytes at `addr`
/// finds at `offset`. The walk ends at the map's length and where `memory`
/// does not hold a whole entry.
pub open spec fn memory_map_step(memory: RegionView, addr: u32, length: u32, offset: nat) -> Option<
    MemoryMapInfo,
> {
    if offset < length && memory.holds(addr + offset, 24) {
        Some(memory_map_info_at(memory, addr + offset))
    } else {
        None
    }
}

/// The header numbered `count` of the table that `info` describes. There is
/// none from `info.num` on, nor where `memory` does not hold it whole.
pub open spec fn section_header_step(memory: RegionView, info: SectionHeadersInfo, count: nat) -> Option<
    SectionHeader,
> {
    let address = info.addr + count * 64;
    if count < info.num && memory.holds(address, 64) {
        let header = section_header_at(memory, address);
        Some(
            SectionHeader {
                name: header.name,
                type_: header.type_,
                flags: header.flags,
                addr: header.addr,
                offset: header.offset,
                size: header.size,
                link: header.link,
                info: header.info,
                addralign: header.addralign,
                entsize: header.entsize,
            },
        )
    } else {
        None
    }
}

impl BootInfo {
    /// Whether the fields on the memory map are valid.
    pub fn memory_map_present(&self) -> (present: bool)
        ensures
            present == has_memory_map(self.flags),
    {
        let flags = self.flags;
        assert((flags & 64 != 0) <==> flags / 64 % 2 == 1) by (bit_vector);
        self.flags & FLAG_MEMORY_MAP != 0
    }

    /// Whether the fields on the section headers are valid.
    pub fn sections_present(&self) -> (present: bool)
        ensures
            present == has_sections(self.flags),
    {
        let flags = self.flags;
        assert((flags & 32 != 0) <==> flags / 32 % 2 == 1) by (bit_vector);
        self.flags & FLAG_ELF_SECTION != 0
    }

    /// The stretch of memory that the boot information takes up: from the
    /// lowest start to the highest end of the structure itself, which lies at
    /// `address`, of the memory map, and of the section headers.
    pub fn memory_usage(&self, address: u32) -> (usage: (u64, u64))
        requires
            self.mmap_addr + self.mmap_length <= u32::MAX,
            self.syms[2] + self.syms[0] * self.syms[1] <= u32::MAX,
        ensures
            usage.0 == min3(address as int, self.mmap_addr as int, self.syms[2] as int),
            usage.1 == max3(
                address + 116,
                self.mmap_addr + self.mmap_length,
                self.syms[2] + self.syms[0] * self.syms[1],
            ),
    {
        let x0: u64 = address as u64;
        let x1: u64 = x0 + BOOT_INFO_BYTES;
        let y0: u64 = self.mmap_addr as u64;
        let y1: u64 = y0 + self.mmap_length as u64;
        let z0: u64 = self.syms[2] as u64;
        let count: u64 = self.syms[0] as u64;
        let size: u64 = self.syms[1] as u64;
        assert(count * size <= u32::MAX) by (nonlinear_arith)
            requires
                z0 + count * size <= u32::MAX,
                0 <= z0,
        ;
        let z1: u64 = z0 + count * size;
        let low = if x0 <= y0 && x0 <= z0 {
            x0
        } else if y0 <= z0 {
            y0
        } else {
            z0
        };
        let high = if x1 >= y1 && x1 >= z1 {
            x1
        } else if y1 >= z1 {
            y1
        } else {
            z1
        };
        (low, high)
    }

    /// A walk over the memory map, from its first entry.
    pub fn memory_maps(&self) -> (walk: MemoryMapInfoIterator)
        requires
            has_memory_map(self.flags),
        ensures
            walk.addr() == self.mmap_addr,
            walk.length() == self.mmap_length,
            walk.position() == 0,
    {
        MemoryMapInfoIterator { addr: self.mmap_addr, length: self.mmap_length, offset: 0 }
    }

    /// A walk over the section headers, from the first.
    pub fn section_headers(&self) -> (walk: SectionHeaderIterator)
        requires
            has_sections(self.flags),
            self.syms[1] == SECTION_HEADER_BYTES,
        ensures
            walk.info() == (SectionHeadersInfo {
                num: self.syms[0],
                size: self.syms[1],
                addr: self.syms[2],
                shndx: self.syms[3],
            }),
            walk.position() == 0,
    {
        let info = SectionHeadersInfo {
            num: self.syms[0],
            size: self.syms[1],
            addr: self.syms[2],
            shndx: self.syms[3],
        };
        SectionHeaderIterator { info, count: 0 }
    }
}

fn read_memory_map_info(memory: &Region, address: u64) -> (entry: MemoryMapInfo)
    requires
        memory@.wf(),
        memory@.holds(address as int, 24),
    ensures
        entry == memory_map_info_at(memory@, address as int),
{
    MemoryMapInfo {
        size: memory.read_u32(address),
        addr: memory.read_u64(address + 4),
        length: memory.read_u64(address + 12),
        type_: memory.read_u32(address + 20),
    }
}

impl MemoryMapInfoIterator {
    /// The address of the memory map.
    pub closed spec fn addr(&self) -> u32 {
        self.addr
    }

    /// The length of the memory map in bytes.
    pub closed spec fn length(&self) -> u32 {
        self.length
    }

    /// How far from the start of the map the walk has come.
    pub closed spec fn position(&self) -> nat {
        self.offset as nat
    }

    /// The next entry, read from `memory`, or `None` at the end of the map.
    /// The walk moves on by the entry's size and the four bytes of the size
    /// field.
    pub fn next(&mut self, memory: &Region) -> (item: Option<MemoryMapInfo>)
        ensures
            final(self).addr() == old(self).addr(),
            final(self).length() == old(self).length(),
            item == memory_map_step(
                memory@,
                old(self).addr(),
                old(self).length(),
                old(self).position(),
            ),
            item matches Some(entry) ==> final(self).position() == old(self).position()
                + entry.size + 4,
            item is None ==> final(self).position() == old(self).position(),
    {
        if self.offset >= self.length as u64 {
            return None;
        }
        let address: u64 = self.addr as u64 + self.offset;
        if !memory.holds(address, MEMORY_MAP_INFO_BYTES) {
            return None;
        }
        let mmap = read_memory_map_info(memory, address);
        self.offset = self.offset + mmap.size as u64 + 4;
        Some(mmap)
    }
}

impl SectionHeaderIterator {
    /// What the boot information says of the section headers.
    pub closed spec fn info(&self) -> SectionHeadersInfo {
        self.info
    }

    /// How many headers the walk has passed.
    pub closed spec fn position(&self) -> nat {
        self.count as nat
    }

    /// The next header, read from `memory`, or `None` at the end of the table.
    pub fn next(&mut self, memory: &Region) -> (item: Option<SectionHeader>)
        ensures
            final(self).info() == old(self).info(),
            item == section_header_step(memory@, old(self).info(), old(self).position()),
            item is Some ==> final(self).position() == old(self).position() + 1,
            item is None ==> final(self).position() == old(self).position(),
    {
        if self.count >= self.info.num {
            return None;
        }
        let address: u64 = self.info.addr as u64 + self.count as u64 * 64;
        if !memory.holds(address, 64) {
            return None;
        }
        let header = read_section_header(memory, address);
        self.count += 1;
        Some(
            SectionHeader {
                name: header.name,
                type_: header.type_,
                flags: header.flags,
                addr: header.addr,
                offset: header.offset,
                size: header.size,
                link: header.link,
                info: header.info,
                addralign: header.addralign,
                entsize: header.entsize,
            },
        )
    }
}

} // verus!
