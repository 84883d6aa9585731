//! The boot information that a Multiboot2 loader leaves in memory: a header of
//! eight bytes, then tags, each with its type and size and padded so that the
//! next starts at a multiple of eight; a tag of type 0 ends them.
use crate::bytes::{Region, RegionView};
use vstd::prelude::*;

verus! {

/// The kinds of tag that the kernel reads.
#[derive(Debug, Copy, Clone, PartialEq, Eq)]
pub enum TagType {
    End,
    MemoryMap,
    Framebuffer,
    SectionHeaderTable,
}

impl TagType {
    /// The number that stands for the kind in a tag.
    pub open spec fn spec_code(self) -> u32 {
        match self {
            TagType::End => 0,
            TagType::MemoryMap => 6,
            TagType::Framebuffer => 8,
            TagType::SectionHeaderTable => 9,
        }
    }

    #[verifier::when_used_as_spec(spec_code)]
    pub fn code(self) -> (code: u32)
        ensures
            code == self.spec_code(),
    {
        match self {
            TagType::End => 0,
            TagType::MemoryMap => 6,
            TagType::Framebuffer => 8,
            TagType::SectionHeaderTable => 9,
        }
    }
}

/// The type of a usable stretch in the memory map.
pub const USABLE: u32 = 1;

/// Bytes of a tag's head.
pub const TAG_BYTES: u64 = 8;

/// Bytes of the head of a memory map tag.
pub const MEMORY_MAP_TAG_BYTES: u64 = 16;

/// Bytes of the head of a section header table tag.
pub const SECTION_HEADER_TABLE_TAG_BYTES: u64 = 20;

/// Bytes of a framebuffer tag as far as it is read.
pub const FRAMEBUFFER_TAG_BYTES: u64 = 30;

/// Bytes of an entry of the memory map.
pub const MEMORY_MAP_ENTRY_BYTES: u64 = 24;

/// Bytes of a section header.
pub const SECTION_HEADER_BYTES: u64 = 64;

/// The head of every tag.
#[derive(Debug, Copy, Clone, PartialEq, Eq)]
pub struct Tag {
    pub type_: u32,
    pub size: u32,
}

#[derive(Debug, Copy, Clone, PartialEq, Eq)]
pub struct MemoryMapTag {
    pub type_: u32,
    pub size: u32,
    pub entry_size: u32,
    pub entry_version: u32,
}

#[derive(Debug, Copy, Clone, PartialEq, Eq)]
pub struct SectionHeaderTableTag {
    pub type_: u32,
    pub size: u32,
    pub num: u32,
    pub entsize: u32,
    pub shndx: u32,
}

#[derive(Debug, Copy, Clone, PartialEq, Eq)]
pub struct FramebufferTag {
    pub type_: u32,
    pub size: u32,
    pub addr: u64,
    pub pitch: u32,
    pub width: u32,
    pub height: u32,
    pub bpp: u8,
    pub type2_: u8,
}

/// One stretch of the memory map; type 1 is usable memory.
#[derive(Debug, Copy, Clone, PartialEq, Eq)]
pub struct MemoryMapEntry {
    pub base_addr: u64,
    pub length: u64,
    pub type_: u32,
    pub reserved: u32,
}

/// A section header of the kernel's ELF image.
#[derive(Debug, Copy, Clone, PartialEq, Eq)]
pub struct SectionHeader {
    pub name: u32,
    pub type_: u32,
    pub flags: u64,
    pub addr: u64,
    pub offset: u64,
    pub size: u64,
    pub link: u32,
    pub info: u32,
    pub addralign: u64,
    pub entsize: u64,
}

impl Default for SectionHeader {
    fn default() -> (header: Self)
        ensures
            header == (SectionHeader {
                name: 0,
                type_: 0,
                flags: 0,
                addr: 0,
                offset: 0,
                size: 0,
                link: 0,
                info: 0,
                addralign: 0,
                entsize: 0,
            }),
    {
        SectionHeader {
            name: 0,
            type_: 0,
            flags: 0,
            addr: 0,
            offset: 0,
            size: 0,
            link: 0,
            info: 0,
            addralign: 0,
            entsize: 0,
        }
    }
}

/// The tag head at `address`.
pub open spec fn tag_at(region: RegionView, address: int) -> Tag {
    Tag { type_: region.u32_at(address), size: region.u32_at(address + 4) }
}

pub open spec fn memory_map_tag_at(region: RegionView, address: int) -> MemoryMapTag {
    MemoryMapTag {
        type_: region.u32_at(address),
        size: region.u32_at(address + 4),
        entry_size: region.u32_at(address + 8),
        entry_version: region.u32_at(address + 12),
    }
}

pub open spec fn section_header_table_tag_at(
    region: RegionView,
    address: int,
) -> SectionHeaderTableTag {
    SectionHeaderTableTag {
        type_: region.u32_at(address),
        size: region.u32_at(address + 4),
        num: region.u32_at(address + 8),
        entsize: region.u32_at(address + 12),
        shndx: region.u32_at(address + 16),
    }
}

pub open spec fn framebuffer_tag_at(region: RegionView, address: int) -> FramebufferTag {
    FramebufferTag {
        type_: region.u32_at(address),
        size: region.u32_at(address + 4),
        addr: region.u64_at(address + 8),
        pitch: region.u32_at(address + 16),
        width: region.u32_at(address + 20),
        height: region.u32_at(address + 24),
        bpp: region.u8_at(address + 28),
        type2_: region.u8_at(address + 29),
    }
}

pub open spec fn memory_map_entry_at(region: RegionView, address: int) -> MemoryMapEntry {
    MemoryMapEntry {
        base_addr: region.u64_at(address),
        length: region.u64_at(address + 8),
        type_: region.u32_at(address + 16),
        reserved: region.u32_at(address + 20),
    }
}

pub open spec fn section_header_at(region: RegionView, address: int) -> SectionHeader {
    SectionHeader {
        name: region.u32_at(address),
        type_: region.u32_at(address + 4),
        flags: region.u64_at(address + 8),
        addr: region.u64_at(address + 16),
        offset: region.u64_at(address + 24),
        size: region.u64_at(address + 32),
        link: region.u32_at(address + 40),
        info: region.u32_at(address + 44),
        addralign: region.u64_at(address + 48),
        entsize: region.u64_at(address + 56),
    }
}

/// Where the tag after one of `size` bytes at `offset` starts: at the next
/// multiple of eight.
pub open spec fn next_tag_offset(offset: nat, size: u32) -> nat {
    ((offset + size + 7) / 8 * 8) as nat
}

/// The tag that a step of the walk over the tags finds at `offset`: the tag
/// whose head lies there, unless it is the end tag or no whole tag head is
/// left in the block.
pub open spec fn tag_step(region: RegionView, offset: nat) -> Option<Tag> {
    let address = region.base + offset;
    let tag = tag_at(region, address);
    if region.holds(address, 8) && tag.type_ != 0 {
        Some(tag)
    } else {
        None
    }
}

/// How far `end` is from `offset`, and 0 where it is not beyond it.
pub open spec fn bytes_left(end: nat, offset: nat) -> nat {
    if offset < end {
        (end - offset) as nat
    } else {
        0
    }
}

/// The tags from `offset` on, each with its address. A tag from which the
/// walk does not move on, one of size 0 at a multiple of eight, is the last.
pub open spec fn tags_from(region: RegionView, offset: nat) -> Seq<(Tag, u32)>
    decreases bytes_left(region.bytes.len(), offset),
{
    match tag_step(region, offset) {
        Some(tag) => seq![(tag, (region.base + offset) as u32)] + if next_tag_offset(
            offset,
            tag.size,
        ) > offset {
            tags_from(region, next_tag_offset(offset, tag.size))
        } else {
            Seq::empty()
        },
        None => Seq::empty(),
    }
}

/// The first tag of type `code` in `tags`.
pub open spec fn first_of_type(tags: Seq<(Tag, u32)>, code: u32) -> Option<(Tag, u32)>
    decreases tags.len(),
{
    if tags.len() == 0 {
        None
    } else if tags[0].0.type_ == code {
        Some(tags[0])
    } else {
        first_of_type(tags.skip(1), code)
    }
}

/// The entry that a step of the walk over a memory map finds at `offset` in
/// its tag: the entry that lies there, unless the offset has reached the tag's
/// size or no whole entry is left in the block.
pub open spec fn memory_map_step(
    region: RegionView,
    tag: MemoryMapTag,
    address: u32,
    offset: nat,
) -> Option<MemoryMapEntry> {
    if offset < tag.size && region.holds(address + offset, 24) {
        Some(memory_map_entry_at(region, address + offset))
    } else {
        None
    }
}

/// The entries of a memory map from `offset` on. Where the entries have size
/// 0 the walk does not move on, and the entry at `offset` is the last.
pub open spec fn memory_map_from(
    region: RegionView,
    tag: MemoryMapTag,
    address: u32,
    offset: nat,
) -> Seq<MemoryMapEntry>
    decreases bytes_left(tag.size as nat, offset),
{
    match memory_map_step(region, tag, address, offset) {
        Some(entry) => seq![entry] + if tag.entry_size > 0 {
            memory_map_from(region, tag, address, (offset + tag.entry_size) as nat)
        } else {
            Seq::empty()
        },
        None => Seq::empty(),
    }
}

/// The header that a step of the walk over a section header table finds at
/// `offset` in its tag: the header that lies there, unless the offset has
/// reached the tag's size or no whole header is left in the block.
pub open spec fn section_header_step(
    region: RegionView,
    tag: SectionHeaderTableTag,
    address: u32,
    offset: nat,
) -> Option<SectionHeader> {
    if offset < tag.size && region.holds(address + offset, 64) {
        Some(section_header_at(region, address + offset))
    } else {
        None
    }
}

/// The section headers of a table from `offset` on. Where the headers have
/// size 0 the walk does not move on, and the header at `offset` is the last.
pub open spec fn section_headers_from(
    region: RegionView,
    tag: SectionHeaderTableTag,
    address: u32,
    offset: nat,
) -> Seq<SectionHeader>
    decreases bytes_left(tag.size as nat, offset),
{
    match section_header_step(region, tag, address, offset) {
        Some(header) => seq![header] + if tag.entsize > 0 {
            section_headers_from(region, tag, address, (offset + tag.entsize) as nat)
        } else {
            Seq::empty()
        },
        None => Seq::empty(),
    }
}

/// The first tag of kind `tag_type` among the tags of the block, where the
/// block holds `bytes` bytes from the tag's start on.
pub open spec fn found(region: RegionView, tag_type: TagType, bytes: int) -> Option<(Tag, u32)> {
    match first_of_type(tags_from(region, 8), tag_type.code()) {
        Some(at) => if region.holds(at.1 as int, bytes) {
            Some(at)
        } else {
            None
        },
        None => None,
    }
}

/// The entries of the block's memory map; none where it has no such tag.
pub open spec fn memory_map_entries(region: RegionView) -> Seq<MemoryMapEntry> {
    match found(region, TagType::MemoryMap, 16) {
        Some(at) => memory_map_from(region, memory_map_tag_at(region, at.1 as int), at.1, 16),
        None => Seq::empty(),
    }
}

/// The section headers of the block; none where it has no such tag.
pub open spec fn section_header_entries(region: RegionView) -> Seq<SectionHeader> {
    match found(region, TagType::SectionHeaderTable, 20) {
        Some(at) => section_headers_from(
            region,
            section_header_table_tag_at(region, at.1 as int),
            at.1,
            20,
        ),
        None => Seq::empty(),
    }
}

/// The usable stretches among `entries`, each as the half-open range of its
/// addresses, in the order of the entries.
pub open spec fn usable_ranges(entries: Seq<MemoryMapEntry>) -> Seq<(u64, u64)>
    decreases entries.len(),
{
    if entries.len() == 0 {
        Seq::empty()
    } else {
        let before = usable_ranges(entries.drop_last());
        let entry = entries.last();
        if entry.type_ == USABLE {
            before.push((entry.base_addr, (entry.base_addr + entry.length) as u64))
        } else {
            before
        }
    }
}

/// The lowest address at which a section of `headers` that is not empty starts.
pub open spec fn lowest_start(headers: Seq<SectionHeader>) -> Option<u64>
    decreases headers.len(),
{
    if headers.len() == 0 {
        None
    } else {
        let before = lowest_start(headers.drop_last());
        let header = headers.last();
        if header.size == 0 {
            before
        } else {
            match before {
                Some(lowest) if lowest <= header.addr => before,
                _ => Some(header.addr),
            }
        }
    }
}

/// The highest address at which a section of `headers` that is not empty ends.
pub open spec fn highest_end(headers: Seq<SectionHeader>) -> Option<u64>
    decreases headers.len(),
{
    if headers.len() == 0 {
        None
    } else {
        let before = highest_end(headers.drop_last());
        let header = headers.last();
        if header.size == 0 {
            before
        } else {
            match before {
                Some(highest) if highest >= header.addr + header.size => before,
                _ => Some((header.addr + header.size) as u64),
            }
        }
    }
}

/// No usable stretch of `entries` reaches beyond the 64-bit address space.
pub open spec fn stretches_fit(entries: Seq<MemoryMapEntry>) -> bool {
    forall|i: int|
        0 <= i < entries.len() && (#[trigger] entries[i]).type_ == USABLE ==> entries[i].base_addr
            + entries[i].length <= u64::MAX
}

/// No section of `headers` reaches beyond the 64-bit address space.
pub open spec fn sections_fit(headers: Seq<SectionHeader>) -> bool {
    forall|i: int|
        0 <= i < headers.len() ==> (#[trigger] headers[i]).addr + headers[i].size <= u64::MAX
}

fn read_tag(region: &Region, address: u64) -> (tag: Tag)
    requires
        region@.wf(),
        region@.holds(address as int, 8),
    ensures
        tag == tag_at(region@, address as int),
{
    Tag { type_: region.read_u32(address), size: region.read_u32(address + 4) }
}

fn read_memory_map_tag(region: &Region, address: u64) -> (tag: MemoryMapTag)
    requires
        region@.wf(),
        region@.holds(address as int, 16),
    ensures
        tag == memory_map_tag_at(region@, address as int),
{
    MemoryMapTag {
        type_: region.read_u32(address),
        size: region.read_u32(address + 4),
        entry_size: region.read_u32(address + 8),
        entry_version: region.read_u32(address + 12),
    }
}

fn read_section_header_table_tag(region: &Region, address: u64) -> (tag: SectionHeaderTableTag)
    requires
        region@.wf(),
        region@.holds(address as int, 20),
    ensures
        tag == section_header_table_tag_at(region@, address as int),
{
    SectionHeaderTableTag {
        type_: region.read_u32(address),
        size: region.read_u32(address + 4),
        num: region.read_u32(address + 8),
        entsize: region.read_u32(address + 12),
        shndx: region.read_u32(address + 16),
    }
}

fn read_framebuffer_tag(region: &Region, address: u64) -> (tag: FramebufferTag)
    requires
        region@.wf(),
        region@.holds(address as int, 30),
    ensures
        tag == framebuffer_tag_at(region@, address as int),
{
    FramebufferTag {
        type_: region.read_u32(address),
        size: region.read_u32(address + 4),
        addr: region.read_u64(address + 8),
        pitch: region.read_u32(address + 16),
        width: region.read_u32(address + 20),
        height: region.read_u32(address + 24),
        bpp: region.read_u8(address + 28),
        type2_: region.read_u8(address + 29),
    }
}

fn read_memory_map_entry(region: &Region, address: u64) -> (entry: MemoryMapEntry)
    requires
        region@.wf(),
        region@.holds(address as int, 24),
    ensures
        entry == memory_map_entry_at(region@, address as int),
{
    MemoryMapEntry {
        base_addr: region.read_u64(address),
        length: region.read_u64(address + 8),
        type_: region.read_u32(address + 16),
        reserved: region.read_u32(address + 20),
    }
}

pub(crate) fn read_section_header(region: &Region, address: u64) -> (header: SectionHeader)
    requires
        region@.wf(),
        region@.holds(address as int, 64),
    ensures
        header == section_header_at(region@, address as int),
{
    SectionHeader {
        name: region.read_u32(address),
        type_: region.read_u32(address + 4),
        flags: region.read_u64(address + 8),
        addr: region.read_u64(address + 16),
        offset: region.read_u64(address + 24),
        size: region.read_u64(address + 32),
        link: region.read_u32(address + 40),
        info: region.read_u32(address + 44),
        addralign: region.read_u64(address + 48),
        entsize: region.read_u64(address + 56),
    }
}

/// The boot information block: its bytes, and the address at which the loader
/// left it.
pub struct BootInfo {
    region: Region,
}

impl View for BootInfo {
    type V = RegionView;

    closed spec fn view(&self) -> RegionView {
        self.region@
    }
}

/// The place of a walk over the tags of a block.
pub struct TagIterator {
    offset: u64,
}

/// The place of a walk over the entries of a memory map.
#[derive(Debug, Copy, Clone)]
pub struct MemoryMapIterator {
    tag: MemoryMapTag,
    address: u32,
    offset: u64,
}

/// The place of a walk over the headers of a section header table.
#[derive(Debug, Copy, Clone)]
pub struct SectionHeaderIterator {
    tag: SectionHeaderTableTag,
    address: u32,
    offset: u64,
}

impl TagIterator {
    /// How far from the start of the block the walk has come.
    pub closed spec fn position(&self) -> nat {
        self.offset as nat
    }

    /// The next tag with its address, or `None` at the end tag and where no
    /// whole tag head is left in the block. The walk moves on by the tag's
    /// size, to the next multiple of eight; after a tag of size 0 at a
    /// multiple of eight it stays where it is.
    pub fn next(&mut self, info: &BootInfo) -> (item: Option<(Tag, u32)>)
        ensures
            match tag_step(info@, old(self).position()) {
                Some(tag) => item == Some((tag, (info@.base + old(self).position()) as u32))
                    && final(self).position() == next_tag_offset(old(self).position(), tag.size),
                None => item is None && final(self).position() == old(self).position(),
            },
    {
        let base = info.region.base();
        if self.offset > 0xFFFF_FFFF {
            return None;
        }
        let address: u64 = base as u64 + self.offset;
        if !info.region.holds(address, TAG_BYTES) {
            return None;
        }
        let tag = read_tag(&info.region, address);
        if tag.type_ == TagType::End.code() {
            return None;
        }
        self.offset = (self.offset + tag.size as u64 + 7) / 8 * 8;
        Some((tag, address as u32))
    }
}

impl MemoryMapIterator {
    /// The head of the memory map's tag.
    pub closed spec fn tag(&self) -> MemoryMapTag {
        self.tag
    }

    /// The address of the memory map's tag.
    pub closed spec fn address(&self) -> u32 {
        self.address
    }

    /// How far from the start of the tag the walk has come.
    pub closed spec fn position(&self) -> nat {
        self.offset as nat
    }

    /// The entries that are still to come.
    pub open spec fn remaining(&self, region: RegionView) -> Seq<MemoryMapEntry> {
        memory_map_from(region, self.tag(), self.address(), self.position())
    }

    /// The next entry, or `None` at the end of the map. The walk moves on by
    /// the size that the tag gives for an entry.
    pub fn next(&mut self, info: &BootInfo) -> (item: Option<MemoryMapEntry>)
        ensures
            final(self).tag() == old(self).tag(),
            final(self).address() == old(self).address(),
            item == memory_map_step(
                info@,
                old(self).tag(),
                old(self).address(),
                old(self).position(),
            ),
            item is Some ==> final(self).position() == old(self).position() + old(self).tag().entry_size,
            item is None ==> final(self).position() == old(self).position(),
    {
        if self.offset >= self.tag.size as u64 {
            return None;
        }
        let address: u64 = self.address as u64 + self.offset;
        if !info.region.holds(address, MEMORY_MAP_ENTRY_BYTES) {
            return None;
        }
        let entry = read_memory_map_entry(&info.region, address);
        self.offset = self.offset + self.tag.entry_size as u64;
        Some(entry)
    }
}

impl SectionHeaderIterator {
    /// The head of the table's tag.
    pub closed spec fn tag(&self) -> SectionHeaderTableTag {
        self.tag
    }

    /// The address of the table's tag.
    pub closed spec fn address(&self) -> u32 {
        self.address
    }

    /// How far from the start of the tag the walk has come.
    pub closed spec fn position(&self) -> nat {
        self.offset as nat
    }

    /// The headers that are still to come.
    pub open spec fn remaining(&self, region: RegionView) -> Seq<SectionHeader> {
        section_headers_from(region, self.tag(), self.address(), self.position())
    }

    /// The next header, or `None` at the end of the table. The walk moves on
    /// by the size that the tag gives for a header.
    pub fn next(&mut self, info: &BootInfo) -> (item: Option<SectionHeader>)
        ensures
            final(self).tag() == old(self).tag(),
            final(self).address() == old(self).address(),
            item == section_header_step(
                info@,
                old(self).tag(),
                old(self).address(),
                old(self).position(),
            ),
            item is Some ==> final(self).position() == old(self).position() + old(self).tag().entsize,
            item is None ==> final(self).position() == old(self).position(),
    {
        if self.offset >= self.tag.size as u64 {
            return None;
        }
        let address: u64 = self.address as u64 + self.offset;
        if !info.region.holds(address, SECTION_HEADER_BYTES) {
            return None;
        }
        let header = read_section_header(&info.region, address);
        self.offset = self.offset + self.tag.entsize as u64;
        Some(header)
    }
}

impl BootInfo {
    #[verifier::type_invariant]
    spec fn has_header(self) -> bool {
        self.region@.bytes.len() >= 8 && self.region@.wf()
    }

    /// The block of `bytes` that lies at `address`. There is none where the
    /// bytes are too few for the block's header, or reach beyond the 32-bit
    /// address space.
    pub fn new(address: u32, bytes: Vec<u8>) -> (info: Option<Self>)
        ensures
            info is Some <==> 8 <= bytes@.len() && address + bytes@.len() <= 0x1_0000_0000,
            info matches Some(block) ==> block@ == (RegionView { base: address, bytes: bytes@ })
                && block@.wf(),
    {
        let len = bytes.len();
        if len < 8 || len as u64 > 0x1_0000_0000 - address as u64 {
            return None;
        }
        Some(BootInfo { region: Region::new(address, bytes) })
    }

    /// The address at which the block lies.
    pub fn address(&self) -> (address: u32)
        ensures
            address == self@.base,
            self@.wf(),
    {
        self.region.base()
    }

    /// The size of the whole block, which its header gives.
    pub fn total_size(&self) -> (size: u32)
        ensures
            size == self@.u32_at(self@.base as int),
    {
        proof {
            use_type_invariant(self);
        }
        self.region.read_u32(self.region.base() as u64)
    }

    /// A walk over the tags, from the first.
    pub fn tags(&self) -> (walk: TagIterator)
        ensures
            walk.position() == 8,
    {
        TagIterator { offset: 8 }
    }

    /// The first tag of kind `tag_type`, with its address. The search ends
    /// with the tags; a tag from which the walk does not move on is looked at
    /// and ends it.
    pub fn find_tag(&self, tag_type: TagType) -> (at: Option<(Tag, u32)>)
        ensures
            at == first_of_type(tags_from(self@, 8), tag_type.code()),
            self@.wf(),
    {
        proof {
            use_type_invariant(self);
        }
        let code = tag_type.code();
        let mut walk = self.tags();
        loop
            invariant
                self@.wf(),
                code == tag_type.code(),
                first_of_type(tags_from(self@, walk.position()), code) == first_of_type(
                    tags_from(self@, 8),
                    code,
                ),
            decreases bytes_left(self@.bytes.len(), walk.position()),
        {
            let ghost position = walk.position();
            let offset = walk.offset;
            match walk.next(self) {
                None => {
                    return None;
                },
                Some((tag, address)) => {
                    let ghost rest = if next_tag_offset(position, tag.size) > position {
                        tags_from(self@, next_tag_offset(position, tag.size))
                    } else {
                        Seq::empty()
                    };
                    assert(tags_from(self@, position) == seq![(tag, address)] + rest);
                    assert((seq![(tag, address)] + rest).skip(1) =~= rest);
                    if tag.type_ == code {
                        return Some((tag, address));
                    }
                    if walk.offset <= offset {
                        return None;
                    }
                },
            }
        }
    }

    /// The framebuffer tag, if the block has one.
    pub fn framebuffer(&self) -> (tag: Option<FramebufferTag>)
        ensures
            tag == match found(self@, TagType::Framebuffer, 30) {
                Some(at) => Some(framebuffer_tag_at(self@, at.1 as int)),
                None => None,
            },
    {
        match self.find_tag(TagType::Framebuffer) {
            Some((_, address)) => {
                if self.region.holds(address as u64, FRAMEBUFFER_TAG_BYTES) {
                    Some(read_framebuffer_tag(&self.region, address as u64))
                } else {
                    None
                }
            },
            None => None,
        }
    }

    /// A walk over the entries of the memory map, if the block has one.
    pub fn memory_map(&self) -> (walk: Option<MemoryMapIterator>)
        ensures
            match found(self@, TagType::MemoryMap, 16) {
                Some(at) => walk matches Some(entries) && entries.tag() == memory_map_tag_at(
                    self@,
                    at.1 as int,
                ) && entries.address() == at.1 && entries.position() == 16,
                None => walk is None,
            },
            walk matches Some(entries) ==> entries.remaining(self@) == memory_map_entries(self@),
    {
        match self.find_tag(TagType::MemoryMap) {
            Some((_, address)) => {
                if self.region.holds(address as u64, MEMORY_MAP_TAG_BYTES) {
                    let tag = read_memory_map_tag(&self.region, address as u64);
                    Some(MemoryMapIterator { tag, address, offset: MEMORY_MAP_TAG_BYTES })
                } else {
                    None
                }
            },
            None => None,
        }
    }

    /// A walk over the section headers, if the block has a table of them.
    pub fn section_headers(&self) -> (walk: Option<SectionHeaderIterator>)
        ensures
            match found(self@, TagType::SectionHeaderTable, 20) {
                Some(at) => walk matches Some(headers) && headers.tag()
                    == section_header_table_tag_at(self@, at.1 as int) && headers.address() == at.1
                    && headers.position() == 20,
                None => walk is None,
            },
            walk matches Some(headers) ==> headers.remaining(self@) == section_header_entries(
                self@,
            ),
    {
        match self.find_tag(TagType::SectionHeaderTable) {
            Some((_, address)) => {
                if self.region.holds(address as u64, SECTION_HEADER_TABLE_TAG_BYTES) {
                    let tag = read_section_header_table_tag(&self.region, address as u64);
                    Some(
                        SectionHeaderIterator {
                            tag,
                            address,
                            offset: SECTION_HEADER_TABLE_TAG_BYTES,
                        },
                    )
                } else {
                    None
                }
            },
            None => None,
        }
    }

    /// The memory that is in use: the block itself, and the stretch from the
    /// lowest start to the highest end of the kernel's sections that are not
    /// empty.
    pub fn occupied_memory(&self) -> (ranges: Vec<(u64, u64)>)
        requires
            found(self@, TagType::SectionHeaderTable, 20) is Some,
            lowest_start(section_header_entries(self@)) is Some,
            sections_fit(section_header_entries(self@)),
        ensures
            ranges@ == seq![
                (self@.base as u64, (self@.base + self@.u32_at(self@.base as int)) as u64),
                (
                    lowest_start(section_header_entries(self@))->Some_0,
                    highest_end(section_header_entries(self@))->Some_0,
                ),
            ],
    {
        let x0: u64 = self.address() as u64;
        let x1: u64 = x0 + self.total_size() as u64;
        let mut lowest: Option<u64> = None;
        let mut highest: Option<u64> = None;
        let ghost all = section_header_entries(self@);
        let ghost mut seen: Seq<SectionHeader> = Seq::empty();
        match self.section_headers() {
            Some(mut walk) => {
                loop
                    invariant_except_break
                        all =~= seen + walk.remaining(self@),
                    invariant
                        all == section_header_entries(self@),
                        sections_fit(all),
                        lowest == lowest_start(seen),
                        highest == highest_end(seen),
                        lowest is Some <==> highest is Some,
                    ensures
                        lowest == lowest_start(all),
                        highest == highest_end(all),
                    decreases bytes_left(walk.tag().size as nat, walk.position()),
                {
                    let ghost before = walk.remaining(self@);
                    match walk.next(self) {
                        None => {
                            assert(seen =~= all);
                            break ;
                        },
                        Some(header) => {
                            assert(before == seq![header] + if walk.tag().entsize > 0 {
                                walk.remaining(self@)
                            } else {
                                Seq::empty()
                            });
                            assert(all[seen.len() as int] == header);
                            proof {
                                let longer = seen.push(header);
                                assert(longer.drop_last() =~= seen);
                                seen = longer;
                            }
                            if header.size > 0 {
                                let end: u64 = header.addr + header.size;
                                lowest =
                                match lowest {
                                    Some(low) if low <= header.addr => lowest,
                                    _ => Some(header.addr),
                                };
                                highest =
                                match highest {
                                    Some(high) if high >= end => highest,
                                    _ => Some(end),
                                };
                            }
                            if walk.tag.entsize == 0 {
                                assert(seen =~= all);
                                break ;
                            }
                        },
                    }
                }
            },
            None => {},
        }
        let mut ranges: Vec<(u64, u64)> = Vec::new();
        ranges.push((x0, x1));
        match (lowest, highest) {
            (Some(y0), Some(y1)) => {
                ranges.push((y0, y1));
            },
            _ => {},
        }
        assert(ranges@ =~= seq![(x0, x1), (lowest->Some_0, highest->Some_0)]);
        ranges
    }

    /// The usable stretches of the memory map, each as a half-open range of
    /// addresses, in the order of the map.
    pub fn usable_memory(&self) -> (ranges: Vec<(u64, u64)>)
        requires
            found(self@, TagType::MemoryMap, 16) is Some,
            stretches_fit(memory_map_entries(self@)),
        ensures
            ranges@ == usable_ranges(memory_map_entries(self@)),
    {
        let mut ranges: Vec<(u64, u64)> = Vec::new();
        let ghost all = memory_map_entries(self@);
        let ghost mut seen: Seq<MemoryMapEntry> = Seq::empty();
        match self.memory_map() {
            Some(mut walk) => {
                loop
                    invariant_except_break
                        all =~= seen + walk.remaining(self@),
                    invariant
                        all == memory_map_entries(self@),
                        stretches_fit(all),
                        ranges@ == usable_ranges(seen),
                    ensures
                        ranges@ == usable_ranges(all),
                    decreases bytes_left(walk.tag().size as nat, walk.position()),
                {
                    let ghost before = walk.remaining(self@);
                    match walk.next(self) {
                        None => {
                            assert(seen =~= all);
                            break ;
                        },
                        Some(entry) => {
                            assert(before == seq![entry] + if walk.tag().entry_size > 0 {
                                walk.remaining(self@)
                            } else {
                                Seq::empty()
                            });
                            assert(all[seen.len() as int] == entry);
                            proof {
                                let longer = seen.push(entry);
                                assert(longer.drop_last() =~= seen);
                                seen = longer;
                            }
                            if entry.type_ == USABLE {
                                ranges.push((entry.base_addr, entry.base_addr + entry.length));
                            }
                            if walk.tag.entry_size == 0 {
                                assert(seen =~= all);
                                break ;
                            }
                        },
                    }
                }
            },
            None => {},
        }
        ranges
    }
}

} // verus!
