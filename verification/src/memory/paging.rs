//! The four-level page table, as a walk through an arena of physical frames.
//!
//! A virtual address splits into four table indices of nine bits each and an
//! offset of twelve bits. The top sixteen bits repeat bit 47.
use crate::memory::{
    adress_to_frame, after_answer, answer, frame_to_address, Frame, FrameAllocator, Page,
    PhysicalAddress, VirtualAddress, PAGE_SIZE,
};
use vstd::prelude::*;

verus! {

/// Entry flag, bit 0: the entry points at a table or a frame.
pub const PRESENT: u64 = 1;

/// Entry flag, bit 1: the memory behind the entry may be written.
pub const WRITABLE: u64 = 2;

/// Number of entries in one table: a table fills one frame.
pub const TABLE_SIZE: usize = 512;

/// The highest page number: a page number has 36 bits.
pub const MAX_PAGE: Page = 0xF_FFFF_FFFF;

/// Number of frames that an entry can point at: bits 12 to 51 of an entry hold
/// the frame's address.
pub const MAX_FRAMES: u64 = 0x100_0000_0000;

/// Bits 12 to 51 of an entry.
pub const ADDRESS_MASK: u64 = 0x000F_FFFF_FFFF_F000;

/// The address at which the self-map shows the active top-level table: all
/// four indices are 511.
pub const ACTIVE_P4_TABLE_ADDRESS: VirtualAddress = 0xFFFF_FFFF_FFFF_F000;

/// The index in the top-level table of the entry that points back at the table.
pub const SELF_MAP_INDEX: usize = 511;

pub type Entry = u64;

/// An address is canonical when its top sixteen bits repeat bit 47.
pub open spec fn is_canonical(addr: VirtualAddress) -> bool {
    addr < 0x8000_0000_0000 || addr >= 0xFFFF_8000_0000_0000
}

/// The page that holds `addr`: bits 12 to 47 of the address.
pub open spec fn page_of(addr: VirtualAddress) -> Page {
    ((addr / 4096) % 0x10_0000_0000) as Page
}

/// The canonical address of the first byte of `page`.
pub open spec fn address_of(page: Page) -> VirtualAddress {
    if page < 0x8_0000_0000 {
        (page * 4096) as VirtualAddress
    } else {
        (page * 4096 + 0xFFFF_0000_0000_0000) as VirtualAddress
    }
}

/// The index that `page` has in the table of `level`; level 4 is the top.
pub open spec fn table_index(page: Page, level: nat) -> nat {
    if level == 4 {
        (page / 0x800_0000 % 512) as nat
    } else if level == 3 {
        (page / 0x4_0000 % 512) as nat
    } else if level == 2 {
        (page / 512 % 512) as nat
    } else {
        (page % 512) as nat
    }
}

/// The page that holds the canonical address `addr`.
pub fn virtual_to_page(addr: VirtualAddress) -> (page: Page)
    requires
        is_canonical(addr),
    ensures
        page == page_of(addr),
        page <= MAX_PAGE,
        address_of(page) == addr - addr % 4096,
{
    assert((addr >> 12) & 0xF_FFFF_FFFF == (addr / 4096) % 0x10_0000_0000) by (bit_vector);
    (addr >> 12) & 0xF_FFFF_FFFF
}

pub fn page_to_virtual(page: Page) -> (addr: VirtualAddress)
    requires
        page <= MAX_PAGE,
    ensures
        addr == address_of(page),
        is_canonical(addr),
        addr % 4096 == 0,
{
    let extension: u64 = if (page >> 35) == 0 {
        0
    } else {
        0xFFFF
    };
    assert(page <= 0xF_FFFF_FFFF ==> ((page >> 35) == 0 <==> page < 0x8_0000_0000))
        by (bit_vector);
    assert(page < 0x8_0000_0000 ==> (page | (0u64 << 36)) << 12 == page * 4096) by (bit_vector);
    assert(0x8_0000_0000 <= page <= 0xF_FFFF_FFFF ==> (page | (0xFFFFu64 << 36)) << 12 == page
        * 4096 + 0xFFFF_0000_0000_0000) by (bit_vector);
    (page | (extension << 36)) << 12
}

pub fn page_p4_index(page: Page) -> (index: usize)
    ensures
        index == table_index(page, 4),
        index < TABLE_SIZE,
{
    assert((page >> 27) & 0x1FF == page / 0x800_0000 % 512) by (bit_vector);
    ((page >> 27) & 0x1FF) as usize
}

pub fn page_p3_index(page: Page) -> (index: usize)
    ensures
        index == table_index(page, 3),
        index < TABLE_SIZE,
{
    assert((page >> 18) & 0x1FF == page / 0x4_0000 % 512) by (bit_vector);
    ((page >> 18) & 0x1FF) as usize
}

pub fn page_p2_index(page: Page) -> (index: usize)
    ensures
        index == table_index(page, 2),
        index < TABLE_SIZE,
{
    assert((page >> 9) & 0x1FF == page / 512 % 512) by (bit_vector);
    ((page >> 9) & 0x1FF) as usize
}

pub fn page_p1_index(page: Page) -> (index: usize)
    ensures
        index == table_index(page, 1),
        index < TABLE_SIZE,
{
    assert(page & 0x1FF == page % 512) by (bit_vector);
    (page & 0x1FF) as usize
}

/// A page number and the canonical address of its first byte stand for each
/// other: from a canonical address to its page and back gives the address with
/// its offset in the page cleared, so the address itself where the offset is
/// 0; and from a page to its address and back gives the page.
pub proof fn lemma_page_address_round_trip(addr: VirtualAddress, page: Page)
    ensures
        is_canonical(addr) ==> address_of(page_of(addr)) == addr - addr % 4096,
        is_canonical(addr) && addr % 4096 == 0 ==> address_of(page_of(addr)) == addr,
        page <= MAX_PAGE ==> page_of(address_of(page)) == page,
        page <= MAX_PAGE ==> is_canonical(address_of(page)) && address_of(page) % 4096 == 0,
        page_of(addr) <= MAX_PAGE,
{
}

/// Bit 0 of an entry.
pub open spec fn entry_present(entry: Entry) -> bool {
    entry % 2 == 1
}

/// The frame whose address bits 12 to 51 of an entry hold.
pub open spec fn entry_frame(entry: Entry) -> Frame {
    (entry / 4096 % 0x100_0000_0000) as Frame
}

/// The entry that points at `frame`, present and writable.
pub open spec fn entry_for(frame: Frame) -> Entry {
    (frame * 4096 + 3) as Entry
}

fn is_present(entry: Entry) -> (present: bool)
    ensures
        present == entry_present(entry),
{
    assert((entry & 1 != 0) <==> entry % 2 == 1) by (bit_vector);
    entry & PRESENT != 0
}

fn frame_of(entry: Entry) -> (frame: Frame)
    ensures
        frame == entry_frame(entry),
        frame < MAX_FRAMES,
{
    assert((entry & 0x000F_FFFF_FFFF_F000) >> 12 == entry / 4096 % 0x100_0000_0000)
        by (bit_vector);
    (entry & ADDRESS_MASK) >> 12
}

fn make_entry(frame: Frame) -> (entry: Entry)
    requires
        frame < MAX_FRAMES,
    ensures
        entry == entry_for(frame),
{
    let address = frame_to_address(frame);
    assert(frame < 0x100_0000_0000 ==> ((frame * 4096) as u64 | 1 | 2) == frame * 4096 + 3)
        by (bit_vector);
    address | PRESENT | WRITABLE
}

/// The entry made for a frame is present and points at that frame.
pub proof fn lemma_entry_for(frame: Frame)
    requires
        frame < MAX_FRAMES,
    ensures
        entry_present(entry_for(frame)),
        entry_frame(entry_for(frame)) == frame,
        !entry_present(0),
{
}

/// What physical memory holds: the frame of the top-level table, and the
/// 64-bit words of every frame, frame after frame, 512 words to a frame.
pub struct MemoryView {
    pub root: Frame,
    pub words: Seq<u64>,
}

impl MemoryView {
    /// Number of frames that the memory has.
    pub open spec fn frame_count(self) -> nat {
        self.words.len() / 512
    }

    /// The memory is made of whole frames, of no more than an entry can point
    /// at, and the top-level table is one of them.
    pub open spec fn wf(self) -> bool {
        &&& self.words.len() == self.frame_count() * 512
        &&& self.frame_count() <= MAX_FRAMES
        &&& self.root < self.frame_count()
    }

    /// Word `index` of `frame`: the entry at `index` where the frame is a table.
    pub open spec fn entry(self, frame: Frame, index: nat) -> Entry {
        self.words[frame * 512 + index]
    }

    /// The table that entry `index` of `table` points at. There is none where
    /// the entry is not present or points outside the memory.
    pub open spec fn child(self, table: Frame, index: nat) -> Option<Frame> {
        let entry = self.entry(table, index);
        if entry_present(entry) && entry_frame(entry) < self.frame_count() {
            Some(entry_frame(entry))
        } else {
            None
        }
    }

    /// The lowest-level table on the walk for `page`.
    pub open spec fn leaf_table(self, page: Page) -> Option<Frame> {
        match self.child(self.root, table_index(page, 4)) {
            Some(p3) => match self.child(p3, table_index(page, 3)) {
                Some(p2) => self.child(p2, table_index(page, 2)),
                None => None,
            },
            None => None,
        }
    }

    /// The tables on the walk for `page`, from the top-level table down as far
    /// as there are tables: four where the walk reaches a last-level table.
    pub open spec fn walk(self, page: Page) -> Seq<Frame> {
        match self.child(self.root, table_index(page, 4)) {
            None => seq![self.root],
            Some(p3) => match self.child(p3, table_index(page, 3)) {
                None => seq![self.root, p3],
                Some(p2) => match self.child(p2, table_index(page, 2)) {
                    None => seq![self.root, p3, p2],
                    Some(p1) => seq![self.root, p3, p2, p1],
                },
            },
        }
    }

    /// The physical address that `addr` is mapped to: the walk goes down from
    /// the top-level table, fails where a table or the last entry is not
    /// present, and adds the offset in the page to the frame's address.
    pub open spec fn translate(self, addr: VirtualAddress) -> Option<PhysicalAddress> {
        let page = page_of(addr);
        match self.leaf_table(page) {
            Some(p1) => {
                let entry = self.entry(p1, table_index(page, 1));
                if entry_present(entry) {
                    Some((entry_frame(entry) * 4096 + addr % 4096) as PhysicalAddress)
                } else {
                    None
                }
            },
            None => None,
        }
    }

    /// The memory after `value` is stored in word `index` of `frame`.
    pub open spec fn write(self, frame: Frame, index: nat, value: Entry) -> MemoryView {
        MemoryView { root: self.root, words: self.words.update(frame * 512 + index, value) }
    }

    /// The memory after every word of `frame` is set to 0.
    pub open spec fn zero(self, frame: Frame) -> MemoryView {
        MemoryView {
            root: self.root,
            words: Seq::new(
                self.words.len(),
                |k: int|
                    if frame * 512 <= k < frame * 512 + 512 {
                        0
                    } else {
                        self.words[k]
                    },
            ),
        }
    }

    /// A memory of `frame_count` frames that holds 0 everywhere but in the
    /// self-map entry of the top-level table, which points at the table.
    pub open spec fn blank(frame_count: nat, root: Frame) -> MemoryView {
        MemoryView {
            root,
            words: Seq::new(
                frame_count * 512,
                |k: int|
                    if k == root * 512 + SELF_MAP_INDEX {
                        entry_for(root)
                    } else {
                        0
                    },
            ),
        }
    }

    /// The self-map entry of the top-level table points at the table itself.
    pub open spec fn self_mapped(self) -> bool {
        self.child(self.root, SELF_MAP_INDEX as nat) == Some(self.root)
    }
}

/// The machine's physical memory, frame by frame, with the frame that holds the
/// active top-level page table.
pub struct PhysicalMemory {
    words: Vec<u64>,
    root: Frame,
}

impl View for PhysicalMemory {
    type V = MemoryView;

    closed spec fn view(&self) -> MemoryView {
        MemoryView { root: self.root, words: self.words@ }
    }
}

impl PhysicalMemory {
    /// A memory of `frame_count` frames, all 0, with an empty top-level table in
    /// `p4_frame` that maps itself.
    pub fn new(frame_count: usize, p4_frame: Frame) -> (mem: Self)
        requires
            p4_frame < frame_count <= MAX_FRAMES,
            frame_count * 512 <= usize::MAX,
        ensures
            mem@ == MemoryView::blank(frame_count as nat, p4_frame),
            mem@.wf(),
            mem@.self_mapped(),
    {
        let total: usize = frame_count * 512;
        let mut words: Vec<u64> = Vec::new();
        let mut i: usize = 0;
        while i < total
            invariant
                i <= total,
                words@.len() == i,
                forall|k: int| 0 <= k < i ==> words@[k] == 0,
            decreases total - i,
        {
            words.push(0);
            i += 1;
        }
        let slot: usize = (p4_frame as usize) * 512 + SELF_MAP_INDEX;
        words.set(slot, make_entry(p4_frame));
        let mem = Self { words, root: p4_frame };
        proof {
            lemma_entry_for(p4_frame);
            assert(mem@.words =~= MemoryView::blank(frame_count as nat, p4_frame).words);
            assert(mem@.words.len() == frame_count * 512);
            assert(mem@.frame_count() == frame_count);
            assert(mem@.entry(p4_frame, 511) == entry_for(p4_frame));
        }
        mem
    }

    /// Number of frames that the memory has.
    pub fn frame_count(&self) -> (count: usize)
        ensures
            count == self@.frame_count(),
    {
        self.words.len() / 512
    }

    /// The frame that holds the top-level table.
    pub fn p4_frame(&self) -> (frame: Frame)
        ensures
            frame == self@.root,
    {
        self.root
    }

    /// Word `index` of `frame`.
    pub fn read_entry(&self, frame: Frame, index: usize) -> (entry: Entry)
        requires
            self@.wf(),
            frame < self@.frame_count(),
            index < TABLE_SIZE,
        ensures
            entry == self@.entry(frame, index as nat),
    {
        let len = self.words.len();
        assert(frame * 512 + index < len);
        self.words[(frame as usize) * 512 + index]
    }

    /// Stores `value` in word `index` of `frame`.
    pub fn write_entry(&mut self, frame: Frame, index: usize, value: Entry)
        requires
            old(self)@.wf(),
            frame < old(self)@.frame_count(),
            index < TABLE_SIZE,
        ensures
            final(self)@ == old(self)@.write(frame, index as nat, value),
            final(self)@.wf(),
    {
        let len = self.words.len();
        assert(frame * 512 + index < len);
        self.words.set((frame as usize) * 512 + index, value);
    }

    /// Sets every word of `frame` to 0.
    pub fn zero_frame(&mut self, frame: Frame)
        requires
            old(self)@.wf(),
            frame < old(self)@.frame_count(),
        ensures
            final(self)@ == old(self)@.zero(frame),
            final(self)@.wf(),
    {
        let len = self.words.len();
        assert(frame * 512 + 512 <= len);
        let base: usize = (frame as usize) * 512;
        let mut i: usize = 0;
        while i < 512
            invariant
                i <= 512,
                base == frame * 512,
                self.root == old(self).root,
                self.words@.len() == old(self).words@.len(),
                base + 512 <= self.words@.len(),
                self@.wf(),
                forall|k: int|
                    0 <= k < self.words@.len() ==> self.words@[k] == if base <= k < base + i {
                        0
                    } else {
                        old(self).words@[k]
                    },
            decreases 512 - i,
        {
            self.words.set(base + i, 0);
            i += 1;
        }
        assert(self@.words =~= old(self)@.zero(frame).words);
    }
}

/// Why a page could not be mapped.
#[derive(Debug, Clone, Copy, PartialEq, Eq)]
pub enum MapError {
    /// A table was missing and the allocator had no frame left for it.
    OutOfFrames,
    /// The frame of a table is one that the memory does not have: a present
    /// entry on the walk points at it, or a table was missing and the
    /// allocator gave it.
    FrameOutsideMemory,
}

/// One step down the walk: the table reached or the reason why none was, and
/// the memory after the step.
pub struct Descent {
    pub table: Result<Frame, MapError>,
    pub memory: MemoryView,
}

/// The walk down to the last-level table of a page: the tables passed, from
/// the top-level table on; the last-level table or the reason why it was not
/// reached; and the memory after the walk.
pub struct Walk {
    pub tables: Seq<Frame>,
    pub leaf: Result<Frame, MapError>,
    pub memory: MemoryView,
}

/// What mapping a page comes to: the result, and the memory afterwards.
pub struct Mapping {
    pub result: Result<(), MapError>,
    pub memory: MemoryView,
}

/// What the allocator answers when it is asked for the table of each level.
/// An answer counts only where the entry for that table is not present.
pub struct Answers {
    pub p3: Option<Frame>,
    pub p2: Option<Frame>,
    pub p1: Option<Frame>,
}

/// What the walk for a page has of the allocator: the answers to what it asks,
/// and the frames that are left to the allocator after the walk.
pub struct Asked {
    pub answers: Answers,
    pub left: Seq<Frame>,
}

impl MemoryView {
    /// The memory after entry `index` of `parent` is pointed at `frame` and
    /// `frame` is cleared to serve as an empty table.
    pub open spec fn install(self, parent: Frame, index: nat, frame: Frame) -> MemoryView {
        self.write(parent, index, entry_for(frame)).zero(frame)
    }

    /// Puts what the allocator gave in place as the missing table behind entry
    /// `index` of `parent`. With no frame, or one outside the memory, nothing
    /// changes.
    pub open spec fn adopt(self, parent: Frame, index: nat, allocated: Option<Frame>) -> Descent {
        match allocated {
            None => Descent { table: Err(MapError::OutOfFrames), memory: self },
            Some(frame) => if frame < self.frame_count() {
                Descent { table: Ok(frame), memory: self.install(parent, index, frame) }
            } else {
                Descent { table: Err(MapError::FrameOutsideMemory), memory: self }
            },
        }
    }

    /// Whether the step from `parent` through entry `index` asks the allocator
    /// for a frame: it does where the entry is not present.
    pub open spec fn asks(self, parent: Frame, index: nat) -> bool {
        !entry_present(self.entry(parent, index))
    }

    /// The step from `parent` through entry `index`. A present entry is left
    /// as it is: the step reaches the table behind it, and fails where the entry
    /// points outside the memory. Where the entry is not present, the step makes
    /// a new table in the frame that the allocator gave.
    pub open spec fn descend(self, parent: Frame, index: nat, allocated: Option<Frame>) -> Descent {
        if self.asks(parent, index) {
            self.adopt(parent, index, allocated)
        } else {
            match self.child(parent, index) {
                Some(table) => Descent { table: Ok(table), memory: self },
                None => Descent { table: Err(MapError::FrameOutsideMemory), memory: self },
            }
        }
    }

    /// What is left of the allocator's frames `upcoming` after the step from
    /// `parent` through entry `index`.
    pub open spec fn left_after(self, parent: Frame, index: nat, upcoming: Seq<Frame>) -> Seq<
        Frame,
    > {
        if self.asks(parent, index) {
            after_answer(upcoming)
        } else {
            upcoming
        }
    }

    /// What the walk for `page` that makes the missing tables has of an
    /// allocator with the frames `upcoming`: each step that finds its entry not
    /// present asks once, and a step that fails is the last.
    pub open spec fn asking(self, page: Page, upcoming: Seq<Frame>) -> Asked {
        let a3 = answer(upcoming);
        let d3 = self.descend(self.root, table_index(page, 4), a3);
        let left3 = self.left_after(self.root, table_index(page, 4), upcoming);
        match d3.table {
            Err(_) => Asked { answers: Answers { p3: a3, p2: None, p1: None }, left: left3 },
            Ok(p3) => {
                let a2 = answer(left3);
                let d2 = d3.memory.descend(p3, table_index(page, 3), a2);
                let left2 = d3.memory.left_after(p3, table_index(page, 3), left3);
                match d2.table {
                    Err(_) => Asked { answers: Answers { p3: a3, p2: a2, p1: None }, left: left2 },
                    Ok(p2) => Asked {
                        answers: Answers { p3: a3, p2: a2, p1: answer(left2) },
                        left: d2.memory.left_after(p2, table_index(page, 2), left2),
                    },
                }
            },
        }
    }

    /// The walk for `page` that makes the tables that are missing: three steps
    /// down from the top-level table. A step that fails ends the walk and
    /// leaves in place what the steps before it made.
    pub open spec fn walk_or_create(self, page: Page, answers: Answers) -> Walk {
        let d3 = self.descend(self.root, table_index(page, 4), answers.p3);
        match d3.table {
            Err(e) => Walk { tables: seq![self.root], leaf: Err(e), memory: d3.memory },
            Ok(p3) => {
                let d2 = d3.memory.descend(p3, table_index(page, 3), answers.p2);
                match d2.table {
                    Err(e) => Walk {
                        tables: seq![self.root, p3],
                        leaf: Err(e),
                        memory: d2.memory,
                    },
                    Ok(p2) => {
                        let d1 = d2.memory.descend(p2, table_index(page, 2), answers.p1);
                        Walk {
                            tables: match d1.table {
                                Ok(p1) => seq![self.root, p3, p2, p1],
                                Err(_) => seq![self.root, p3, p2],
                            },
                            leaf: d1.table,
                            memory: d1.memory,
                        }
                    },
                }
            },
        }
    }

    /// Mapping `page` to `frame`: after the walk that makes the missing tables,
    /// the last table's entry for the page is pointed at `frame`, and `frame`
    /// is cleared. Where the walk fails, the mapping fails with it.
    pub open spec fn map_page(self, page: Page, frame: Frame, answers: Answers) -> Mapping {
        let walk = self.walk_or_create(page, answers);
        match walk.leaf {
            Err(e) => Mapping { result: Err(e), memory: walk.memory },
            Ok(p1) => Mapping {
                result: Ok(()),
                memory: walk.memory.write(p1, table_index(page, 1), entry_for(frame)).zero(frame),
            },
        }
    }

    /// The memory after the last-level entry for `page` is cleared. Where the
    /// walk for `page` does not reach a last-level table, nothing changes.
    pub open spec fn unmap(self, page: Page) -> MemoryView {
        match self.leaf_table(page) {
            Some(p1) => self.write(p1, table_index(page, 1), 0),
            None => self,
        }
    }
}

/// Storing a word or clearing a frame keeps the memory's size and top-level
/// table, and changes no word but those named.
pub proof fn lemma_write_zero_frame(
    memory: MemoryView,
    frame: Frame,
    index: nat,
    value: Entry,
    other: Frame,
    at: nat,
)
    requires
        memory.wf(),
        frame < memory.frame_count(),
        other < memory.frame_count(),
        index < 512,
        at < 512,
    ensures
        memory.write(frame, index, value).wf(),
        memory.write(frame, index, value).frame_count() == memory.frame_count(),
        memory.write(frame, index, value).entry(other, at) == if other == frame && at == index {
            value
        } else {
            memory.entry(other, at)
        },
        memory.zero(frame).wf(),
        memory.zero(frame).frame_count() == memory.frame_count(),
        memory.zero(frame).entry(other, at) == if other == frame {
            0
        } else {
            memory.entry(other, at)
        },
{
}

/// The frame of the active top-level table.
pub fn get_p4_table(mem: &PhysicalMemory) -> (table: Frame)
    ensures
        table == mem@.root,
{
    mem.p4_frame()
}

/// The address at which the self-map shows the table behind entry `index` of
/// the table that it shows at `parent`: the entry's offset in the table is put
/// into the address, and all is moved up by the nine bits of one index.
pub open spec fn child_table_address(parent: VirtualAddress, index: u64) -> VirtualAddress {
    (parent | (index << 3)) << 9
}

/// The address at which the self-map shows the table behind entry `index` of
/// the table at `parent`.
pub fn get_child_table_address(parent: VirtualAddress, index: usize) -> (addr: VirtualAddress)
    ensures
        addr == child_table_address(parent, index as u64),
{
    (parent | ((index as u64) << 3)) << 9
}

/// The table behind entry `index` of `parent`. There is none where the entry
/// is not present, and none where it points outside the memory.
pub fn get_child_table(mem: &PhysicalMemory, parent: Frame, index: usize) -> (child: Option<Frame>)
    requires
        mem@.wf(),
        parent < mem@.frame_count(),
        index < TABLE_SIZE,
    ensures
        child == mem@.child(parent, index as nat),
        child matches Some(table) ==> table < mem@.frame_count(),
{
    let entry = mem.read_entry(parent, index);
    if !is_present(entry) {
        return None;
    }
    let table = frame_of(entry);
    if table >= mem.frame_count() as u64 {
        return None;
    }
    Some(table)
}

/// The physical address that `addr` is mapped to, if it is mapped.
pub fn virtual_to_physical(mem: &PhysicalMemory, addr: VirtualAddress) -> (physical: Option<
    PhysicalAddress,
>)
    requires
        mem@.wf(),
        is_canonical(addr),
    ensures
        physical == mem@.translate(addr),
{
    let offset = addr % PAGE_SIZE;
    let page = virtual_to_page(addr);
    let p4 = get_p4_table(mem);
    let p3 = match get_child_table(mem, p4, page_p4_index(page)) {
        Some(table) => table,
        None => { return None; },
    };
    let p2 = match get_child_table(mem, p3, page_p3_index(page)) {
        Some(table) => table,
        None => { return None; },
    };
    let p1 = match get_child_table(mem, p2, page_p2_index(page)) {
        Some(table) => table,
        None => { return None; },
    };
    let entry = mem.read_entry(p1, page_p1_index(page));
    if !is_present(entry) {
        return None;
    }
    Some(frame_to_address(frame_of(entry)) + offset)
}

/// Clears the frame that `page` is mapped to.
pub fn initialize_page(mem: &mut PhysicalMemory, page: Page)
    requires
        old(mem)@.wf(),
        page <= MAX_PAGE,
        old(mem)@.translate(address_of(page)) matches Some(address) && address / 4096 < old(
            mem,
        )@.frame_count(),
    ensures
        final(mem)@.wf(),
        final(mem)@ == old(mem)@.zero(
            (old(mem)@.translate(address_of(page))->Some_0 / 4096) as Frame,
        ),
{
    let addr = page_to_virtual(page);
    match virtual_to_physical(mem, addr) {
        Some(address) => {
            mem.zero_frame(adress_to_frame(address));
        },
        None => {},
    }
}

/// Puts the frame that the allocator gave in place as the table behind entry
/// `index` of `parent`.
pub fn install_child_table(
    mem: &mut PhysicalMemory,
    parent: Frame,
    index: usize,
    allocated: Option<Frame>,
) -> (table: Result<Frame, MapError>)
    requires
        old(mem)@.wf(),
        parent < old(mem)@.frame_count(),
        index < TABLE_SIZE,
    ensures
        final(mem)@.wf(),
        final(mem)@.frame_count() == old(mem)@.frame_count(),
        table == old(mem)@.adopt(parent, index as nat, allocated).table,
        final(mem)@ == old(mem)@.adopt(parent, index as nat, allocated).memory,
        table matches Ok(frame) ==> frame < old(mem)@.frame_count(),
{
    match allocated {
        None => Err(MapError::OutOfFrames),
        Some(frame) => {
            if frame >= mem.frame_count() as u64 {
                return Err(MapError::FrameOutsideMemory);
            }
            mem.write_entry(parent, index, make_entry(frame));
            mem.zero_frame(frame);
            Ok(frame)
        },
    }
}

/// The table behind entry `index` of `parent`. A present entry is not
/// replaced; where the entry is not present, the allocator is asked once and
/// what it gives is put in place as `install_child_table` says.
pub fn get_or_create_child_table<A: FrameAllocator>(
    mem: &mut PhysicalMemory,
    parent: Frame,
    index: usize,
    allocator: &mut A,
) -> (table: Result<Frame, MapError>)
    requires
        old(mem)@.wf(),
        parent < old(mem)@.frame_count(),
        index < TABLE_SIZE,
    ensures
        final(mem)@.wf(),
        final(mem)@.frame_count() == old(mem)@.frame_count(),
        table == old(mem)@.descend(
            parent,
            index as nat,
            answer(old(allocator).upcoming()),
        ).table,
        final(mem)@ == old(mem)@.descend(
            parent,
            index as nat,
            answer(old(allocator).upcoming()),
        ).memory,
        final(allocator).upcoming() == old(mem)@.left_after(
            parent,
            index as nat,
            old(allocator).upcoming(),
        ),
        !old(mem)@.asks(parent, index as nat) ==> *final(allocator) == *old(allocator),
        table matches Ok(frame) ==> frame < old(mem)@.frame_count(),
{
    let entry = mem.read_entry(parent, index);
    if is_present(entry) {
        let table = frame_of(entry);
        if table >= mem.frame_count() as u64 {
            return Err(MapError::FrameOutsideMemory);
        }
        return Ok(table);
    }
    let allocated = allocator.allocate();
    install_child_table(mem, parent, index, allocated)
}

/// Maps `page` to `frame` and clears the frame. Tables that are missing on the
/// way are made in frames from `allocator`, which is asked once for each. With
/// all three tables in place the allocator is not asked and the mapping
/// succeeds.
pub fn map_page_to_frame<A: FrameAllocator>(
    mem: &mut PhysicalMemory,
    page: Page,
    frame: Frame,
    allocator: &mut A,
) -> (result: Result<(), MapError>)
    requires
        old(mem)@.wf(),
        page <= MAX_PAGE,
        frame < old(mem)@.frame_count(),
    ensures
        final(mem)@.wf(),
        final(mem)@.frame_count() == old(mem)@.frame_count(),
        result == old(mem)@.map_page(
            page,
            frame,
            old(mem)@.asking(page, old(allocator).upcoming()).answers,
        ).result,
        final(mem)@ == old(mem)@.map_page(
            page,
            frame,
            old(mem)@.asking(page, old(allocator).upcoming()).answers,
        ).memory,
        final(allocator).upcoming() == old(mem)@.asking(page, old(allocator).upcoming()).left,
        old(mem)@.leaf_table(page) is Some ==> result is Ok && *final(allocator) == *old(
            allocator,
        ),
{
    let p4 = get_p4_table(mem);
    let p3 = match get_or_create_child_table(mem, p4, page_p4_index(page), allocator) {
        Ok(table) => table,
        Err(e) => { return Err(e); },
    };
    let p2 = match get_or_create_child_table(mem, p3, page_p3_index(page), allocator) {
        Ok(table) => table,
        Err(e) => { return Err(e); },
    };
    let p1 = match get_or_create_child_table(mem, p2, page_p2_index(page), allocator) {
        Ok(table) => table,
        Err(e) => { return Err(e); },
    };
    mem.write_entry(p1, page_p1_index(page), make_entry(frame));
    mem.zero_frame(frame);
    Ok(())
}

/// Clears the last-level entry of a mapped page. The tables stay.
pub fn unmap_page(mem: &mut PhysicalMemory, page: Page)
    requires
        old(mem)@.wf(),
        page <= MAX_PAGE,
        old(mem)@.translate(address_of(page)) is Some,
    ensures
        final(mem)@.wf(),
        final(mem)@ == old(mem)@.unmap(page),
{
    proof {
        lemma_page_address_round_trip(0, page);
    }
    let p4 = get_p4_table(mem);
    let p3 = match get_child_table(mem, p4, page_p4_index(page)) {
        Some(table) => table,
        None => { return ; },
    };
    let p2 = match get_child_table(mem, p3, page_p3_index(page)) {
        Some(table) => table,
        None => { return ; },
    };
    let p1 = match get_child_table(mem, p2, page_p2_index(page)) {
        Some(table) => table,
        None => { return ; },
    };
    mem.write_entry(p1, page_p1_index(page), 0);
}

/// A step down that reaches a table leaves the memory's size as it was and
/// the table inside it. Where the table is not the parent itself, the parent's
/// entry points at it afterwards. Apart from that entry and from the table
/// reached, no word changes.
pub proof fn lemma_descend(memory: MemoryView, parent: Frame, index: nat, allocated: Option<Frame>)
    requires
        memory.wf(),
        parent < memory.frame_count(),
        index < 512,
    ensures
        ({
            let step = memory.descend(parent, index, allocated);
            &&& step.memory.wf()
            &&& step.memory.frame_count() == memory.frame_count()
            &&& step.memory.root == memory.root
            &&& step.table is Err ==> step.memory == memory
            &&& !memory.asks(parent, index) ==> step.memory == memory
            &&& memory.child(parent, index) matches Some(table) ==> step.table == Ok::<
                Frame,
                MapError,
            >(table)
            &&& memory.asks(parent, index) && step.table is Ok ==> allocated == Some(
                step.table->Ok_0,
            )
            &&& step.table matches Ok(table) ==> {
                &&& table < memory.frame_count()
                &&& table != parent ==> step.memory.child(parent, index) == Some(table)
                &&& forall|other: Frame, at: nat|
                    other < memory.frame_count() && at < 512 && other != table && !(other == parent
                        && at == index) ==> #[trigger] step.memory.entry(other, at)
                        == memory.entry(other, at)
            }
        }),
{
    let step = memory.descend(parent, index, allocated);
    if step.table is Ok && memory.asks(parent, index) {
        let table = step.table->Ok_0;
        let written = memory.write(parent, index, entry_for(table));
        lemma_entry_for(table);
        lemma_write_zero_frame(memory, parent, index, entry_for(table), parent, index);
        lemma_write_zero_frame(written, table, 0, 0, parent, index);
        assert forall|other: Frame, at: nat|
            other < memory.frame_count() && at < 512 && other != table && !(other == parent && at
                == index) implies #[trigger] step.memory.entry(other, at) == memory.entry(
            other,
            at,
        ) by {
            lemma_write_zero_frame(memory, parent, index, entry_for(table), other, at);
            lemma_write_zero_frame(written, table, 0, 0, other, at);
        }
    }
}

/// The walk that makes the missing tables takes frames from the front of what
/// the allocator has, in order and at most three; with all three tables in
/// place it takes none.
pub proof fn lemma_asking(memory: MemoryView, page: Page, upcoming: Seq<Frame>)
    requires
        memory.wf(),
        page <= MAX_PAGE,
    ensures
        ({
            let left = memory.asking(page, upcoming).left;
            &&& left.len() <= upcoming.len() <= left.len() + 3
            &&& left == upcoming.skip(upcoming.len() - left.len())
            &&& memory.leaf_table(page) is Some ==> left == upcoming
        }),
{
    let i4 = table_index(page, 4);
    let i3 = table_index(page, 3);
    let i2 = table_index(page, 2);
    let root = memory.root;
    let d3 = memory.descend(root, i4, answer(upcoming));
    let left3 = memory.left_after(root, i4, upcoming);
    lemma_descend(memory, root, i4, answer(upcoming));
    assert(left3 =~= upcoming.skip(upcoming.len() - left3.len()));
    if d3.table is Ok {
        let p3 = d3.table->Ok_0;
        let d2 = d3.memory.descend(p3, i3, answer(left3));
        let left2 = d3.memory.left_after(p3, i3, left3);
        lemma_descend(d3.memory, p3, i3, answer(left3));
        assert(left2 =~= upcoming.skip(upcoming.len() - left2.len()));
        if d2.table is Ok {
            let p2 = d2.table->Ok_0;
            let left1 = d2.memory.left_after(p2, i2, left2);
            assert(left1 =~= upcoming.skip(upcoming.len() - left1.len()));
        }
    }
}

/// After a page is mapped to a frame, the address of the page is mapped to the
/// address of the frame, whatever the allocator answered. This holds where the
/// four tables on the walk and the frame are five different frames.
pub proof fn lemma_map_then_translate(
    memory: MemoryView,
    page: Page,
    frame: Frame,
    answers: Answers,
)
    requires
        memory.wf(),
        page <= MAX_PAGE,
        frame < memory.frame_count(),
        memory.map_page(page, frame, answers).result is Ok,
        memory.walk_or_create(page, answers).tables.push(frame).no_duplicates(),
    ensures
        memory.map_page(page, frame, answers).memory.wf(),
        memory.map_page(page, frame, answers).memory.translate(address_of(page)) == Some(
            (frame * 4096) as PhysicalAddress,
        ),
{
    let i4 = table_index(page, 4);
    let i3 = table_index(page, 3);
    let i2 = table_index(page, 2);
    let i1 = table_index(page, 1);
    let root = memory.root;
    let walk = memory.walk_or_create(page, answers);
    let all = walk.tables.push(frame);
    let d3 = memory.descend(root, i4, answers.p3);
    let p3 = d3.table->Ok_0;
    let d2 = d3.memory.descend(p3, i3, answers.p2);
    let p2 = d2.table->Ok_0;
    let d1 = d2.memory.descend(p2, i2, answers.p1);
    let p1 = d1.table->Ok_0;
    assert(all[0] == root && all[1] == p3 && all[2] == p2 && all[3] == p1 && all[4] == frame);
    assert(root != p3 && root != p2 && root != p1 && root != frame);
    assert(p3 != p2 && p3 != p1 && p3 != frame);
    assert(p2 != p1 && p2 != frame && p1 != frame);
    lemma_descend(memory, root, i4, answers.p3);
    lemma_descend(d3.memory, p3, i3, answers.p2);
    lemma_descend(d2.memory, p2, i2, answers.p1);
    let m3 = d1.memory;
    assert(m3.entry(root, i4) == d3.memory.entry(root, i4)) by {
        assert(d2.memory.entry(root, i4) == d3.memory.entry(root, i4));
        assert(m3.entry(root, i4) == d2.memory.entry(root, i4));
    }
    assert(m3.entry(p3, i3) == d2.memory.entry(p3, i3));
    let m4 = m3.write(p1, i1, entry_for(frame));
    let m5 = m4.zero(frame);
    lemma_entry_for(frame);
    lemma_write_zero_frame(m3, p1, i1, entry_for(frame), root, i4);
    lemma_write_zero_frame(m3, p1, i1, entry_for(frame), p3, i3);
    lemma_write_zero_frame(m3, p1, i1, entry_for(frame), p2, i2);
    lemma_write_zero_frame(m3, p1, i1, entry_for(frame), p1, i1);
    lemma_write_zero_frame(m4, frame, 0, 0, root, i4);
    lemma_write_zero_frame(m4, frame, 0, 0, p3, i3);
    lemma_write_zero_frame(m4, frame, 0, 0, p2, i2);
    lemma_write_zero_frame(m4, frame, 0, 0, p1, i1);
    lemma_page_address_round_trip(0, page);
    assert(m5.child(root, i4) == Some(p3));
    assert(m5.child(p3, i3) == Some(p2));
    assert(m5.child(p2, i2) == Some(p1));
    assert(m5.entry(p1, i1) == entry_for(frame));
}

/// After a page is unmapped, its address is mapped to nothing.
pub proof fn lemma_unmap_then_translate(memory: MemoryView, page: Page)
    requires
        memory.wf(),
        page <= MAX_PAGE,
    ensures
        memory.unmap(page).wf(),
        memory.unmap(page).translate(address_of(page)) is None,
{
    let i4 = table_index(page, 4);
    let i3 = table_index(page, 3);
    let i2 = table_index(page, 2);
    let i1 = table_index(page, 1);
    let root = memory.root;
    lemma_page_address_round_trip(0, page);
    lemma_entry_for(0);
    if let Some(p1) = memory.leaf_table(page) {
        let p3 = memory.child(root, i4)->Some_0;
        let p2 = memory.child(p3, i3)->Some_0;
        let after = memory.unmap(page);
        lemma_write_zero_frame(memory, p1, i1, 0, root, i4);
        lemma_write_zero_frame(memory, p1, i1, 0, p3, i3);
        lemma_write_zero_frame(memory, p1, i1, 0, p2, i2);
        lemma_write_zero_frame(memory, p1, i1, 0, p1, i1);
        if after.child(root, i4) == Some(p3) {
            if after.child(p3, i3) == Some(p2) {
                if after.child(p2, i2) == Some(p1) {
                    assert(after.entry(p1, i1) == 0);
                }
            }
        }
    }
}

/// Mapping a page, whether it succeeds or fails, leaves the memory's size and
/// top-level table as they were. Where all three tables for the page are in
/// place it succeeds, whatever the allocator would answer, and changes nothing
/// but the page's entry and the frame, which it clears: no table is made.
pub proof fn lemma_map_keeps_shape(memory: MemoryView, page: Page, frame: Frame, answers: Answers)
    requires
        memory.wf(),
        page <= MAX_PAGE,
        frame < memory.frame_count(),
    ensures
        memory.map_page(page, frame, answers).memory.wf(),
        memory.map_page(page, frame, answers).memory.frame_count() == memory.frame_count(),
        memory.map_page(page, frame, answers).memory.root == memory.root,
        memory.leaf_table(page) matches Some(p1) ==> memory.map_page(page, frame, answers) == (
        Mapping {
            result: Ok(()),
            memory: memory.write(p1, table_index(page, 1), entry_for(frame)).zero(frame),
        }),
{
    let i4 = table_index(page, 4);
    let i3 = table_index(page, 3);
    let i2 = table_index(page, 2);
    let i1 = table_index(page, 1);
    let d3 = memory.descend(memory.root, i4, answers.p3);
    lemma_descend(memory, memory.root, i4, answers.p3);
    if d3.table is Ok {
        let p3 = d3.table->Ok_0;
        let d2 = d3.memory.descend(p3, i3, answers.p2);
        lemma_descend(d3.memory, p3, i3, answers.p2);
        if d2.table is Ok {
            let p2 = d2.table->Ok_0;
            let d1 = d2.memory.descend(p2, i2, answers.p1);
            lemma_descend(d2.memory, p2, i2, answers.p1);
            if d1.table is Ok {
                let p1 = d1.table->Ok_0;
                lemma_write_zero_frame(d1.memory, p1, i1, entry_for(frame), 0, 0);
                lemma_write_zero_frame(
                    d1.memory.write(p1, i1, entry_for(frame)),
                    frame,
                    0,
                    0,
                    0,
                    0,
                );
            }
        }
    }
}

/// Mapping a page, whether it succeeds or fails, changes no word outside the
/// tables on its walk and the frame that the page is mapped to.
pub proof fn lemma_map_touches_walk_only(
    memory: MemoryView,
    page: Page,
    frame: Frame,
    answers: Answers,
    other: Frame,
    at: nat,
)
    requires
        memory.wf(),
        page <= MAX_PAGE,
        frame < memory.frame_count(),
        other < memory.frame_count(),
        at < 512,
        other != frame,
        !memory.walk_or_create(page, answers).tables.contains(other),
    ensures
        memory.map_page(page, frame, answers).memory.entry(other, at) == memory.entry(other, at),
{
    let i4 = table_index(page, 4);
    let i3 = table_index(page, 3);
    let i2 = table_index(page, 2);
    let i1 = table_index(page, 1);
    let root = memory.root;
    let tables = memory.walk_or_create(page, answers).tables;
    assert(tables[0] == root);
    let d3 = memory.descend(root, i4, answers.p3);
    lemma_descend(memory, root, i4, answers.p3);
    if d3.table is Ok {
        let p3 = d3.table->Ok_0;
        assert(tables[1] == p3);
        let d2 = d3.memory.descend(p3, i3, answers.p2);
        lemma_descend(d3.memory, p3, i3, answers.p2);
        assert(d3.memory.entry(other, at) == memory.entry(other, at));
        if d2.table is Ok {
            let p2 = d2.table->Ok_0;
            assert(tables[2] == p2);
            let d1 = d2.memory.descend(p2, i2, answers.p1);
            lemma_descend(d2.memory, p2, i2, answers.p1);
            assert(d2.memory.entry(other, at) == d3.memory.entry(other, at));
            if d1.table is Ok {
                let p1 = d1.table->Ok_0;
                assert(tables[3] == p1);
                assert(d1.memory.entry(other, at) == d2.memory.entry(other, at));
                let m4 = d1.memory.write(p1, i1, entry_for(frame));
                lemma_write_zero_frame(d1.memory, p1, i1, entry_for(frame), other, at);
                lemma_write_zero_frame(m4, frame, 0, 0, other, at);
            }
        }
    }
}

/// None of `answers` that is a frame is on the walk for `page`.
pub open spec fn answers_off_walk(memory: MemoryView, answers: Answers, page: Page) -> bool {
    &&& answers.p3 matches Some(frame) ==> !memory.walk(page).contains(frame)
    &&& answers.p2 matches Some(frame) ==> !memory.walk(page).contains(frame)
    &&& answers.p1 matches Some(frame) ==> !memory.walk(page).contains(frame)
}

/// A step down leaves a present entry as it was, where the frame that the
/// allocator gave is not the table that holds the entry.
proof fn lemma_descend_keeps_entry(
    memory: MemoryView,
    parent: Frame,
    index: nat,
    allocated: Option<Frame>,
    table: Frame,
    at: nat,
)
    requires
        memory.wf(),
        parent < memory.frame_count(),
        index < 512,
        table < memory.frame_count(),
        at < 512,
        entry_present(memory.entry(table, at)),
        allocated matches Some(frame) ==> frame != table,
    ensures
        memory.descend(parent, index, allocated).memory.entry(table, at) == memory.entry(
            table,
            at,
        ),
{
    lemma_descend(memory, parent, index, allocated);
}

/// Mapping a page leaves the mapping of another page as it was. This holds
/// where the other page is mapped; the frame that the page is mapped to and
/// the frames that the allocator gives are no tables on the other page's walk;
/// the four tables on the page's walk and its frame are five different frames;
/// and the entry that is written for the page is none of the four entries on
/// the other page's walk.
pub proof fn lemma_map_keeps_other(
    memory: MemoryView,
    page: Page,
    frame: Frame,
    answers: Answers,
    other: Page,
)
    requires
        memory.wf(),
        page <= MAX_PAGE,
        other <= MAX_PAGE,
        frame < memory.frame_count(),
        memory.map_page(page, frame, answers).result is Ok,
        memory.walk_or_create(page, answers).tables.push(frame).no_duplicates(),
        memory.translate(address_of(other)) is Some,
        !memory.walk(other).contains(frame),
        answers_off_walk(memory, answers, other),
        forall|level: nat|
            1 <= level <= 4 ==> !(memory.walk(other)[4 - level] == memory.walk_or_create(
                page,
                answers,
            ).tables[3] && table_index(other, level) == table_index(page, 1)),
    ensures
        memory.map_page(page, frame, answers).memory.translate(address_of(other))
            == memory.translate(address_of(other)),
{
    let i4 = table_index(page, 4);
    let i3 = table_index(page, 3);
    let i2 = table_index(page, 2);
    let i1 = table_index(page, 1);
    let j4 = table_index(other, 4);
    let j3 = table_index(other, 3);
    let j2 = table_index(other, 2);
    let j1 = table_index(other, 1);
    let root = memory.root;
    lemma_page_address_round_trip(0, other);
    let q3 = memory.child(root, j4)->Some_0;
    let q2 = memory.child(q3, j3)->Some_0;
    let q1 = memory.child(q2, j2)->Some_0;
    let theirs = memory.walk(other);
    assert(theirs[0] == root && theirs[1] == q3 && theirs[2] == q2 && theirs[3] == q1);
    let walk = memory.walk_or_create(page, answers);
    let all = walk.tables.push(frame);
    let d3 = memory.descend(root, i4, answers.p3);
    let p3 = d3.table->Ok_0;
    let d2 = d3.memory.descend(p3, i3, answers.p2);
    let p2 = d2.table->Ok_0;
    let d1 = d2.memory.descend(p2, i2, answers.p1);
    let p1 = d1.table->Ok_0;
    assert(all[0] == root && all[1] == p3 && all[2] == p2 && all[3] == p1 && all[4] == frame);
    lemma_descend(memory, root, i4, answers.p3);
    lemma_descend(d3.memory, p3, i3, answers.p2);
    lemma_descend(d2.memory, p2, i2, answers.p1);
    lemma_descend_keeps_entry(memory, root, i4, answers.p3, root, j4);
    lemma_descend_keeps_entry(memory, root, i4, answers.p3, q3, j3);
    lemma_descend_keeps_entry(memory, root, i4, answers.p3, q2, j2);
    lemma_descend_keeps_entry(memory, root, i4, answers.p3, q1, j1);
    lemma_descend_keeps_entry(d3.memory, p3, i3, answers.p2, root, j4);
    lemma_descend_keeps_entry(d3.memory, p3, i3, answers.p2, q3, j3);
    lemma_descend_keeps_entry(d3.memory, p3, i3, answers.p2, q2, j2);
    lemma_descend_keeps_entry(d3.memory, p3, i3, answers.p2, q1, j1);
    lemma_descend_keeps_entry(d2.memory, p2, i2, answers.p1, root, j4);
    lemma_descend_keeps_entry(d2.memory, p2, i2, answers.p1, q3, j3);
    lemma_descend_keeps_entry(d2.memory, p2, i2, answers.p1, q2, j2);
    lemma_descend_keeps_entry(d2.memory, p2, i2, answers.p1, q1, j1);
    let m3 = d1.memory;
    let m4 = m3.write(p1, i1, entry_for(frame));
    let m5 = m4.zero(frame);
    assert(!(theirs[0] == p1 && j4 == i1));
    assert(!(theirs[1] == p1 && j3 == i1));
    assert(!(theirs[2] == p1 && j2 == i1));
    assert(!(theirs[3] == p1 && j1 == i1));
    assert(theirs[0] != frame && theirs[1] != frame && theirs[2] != frame && theirs[3] != frame);
    lemma_write_zero_frame(m3, p1, i1, entry_for(frame), root, j4);
    lemma_write_zero_frame(m3, p1, i1, entry_for(frame), q3, j3);
    lemma_write_zero_frame(m3, p1, i1, entry_for(frame), q2, j2);
    lemma_write_zero_frame(m3, p1, i1, entry_for(frame), q1, j1);
    lemma_write_zero_frame(m4, frame, 0, 0, root, j4);
    lemma_write_zero_frame(m4, frame, 0, 0, q3, j3);
    lemma_write_zero_frame(m4, frame, 0, 0, q2, j2);
    lemma_write_zero_frame(m4, frame, 0, 0, q1, j1);
    assert(m5.entry(root, j4) == memory.entry(root, j4));
    assert(m5.entry(q3, j3) == memory.entry(q3, j3));
    assert(m5.entry(q2, j2) == memory.entry(q2, j2));
    assert(m5.entry(q1, j1) == memory.entry(q1, j1));
}

/// Unmapping a page leaves the mapping of another page as it was, where the
/// entry that is cleared is none of the four entries on the other page's walk.
pub proof fn lemma_unmap_keeps_other(memory: MemoryView, page: Page, other: Page)
    requires
        memory.wf(),
        page <= MAX_PAGE,
        other <= MAX_PAGE,
        memory.leaf_table(page) is Some,
        memory.leaf_table(other) is Some,
        forall|level: nat|
            1 <= level <= 4 ==> !(memory.walk(other)[4 - level] == memory.leaf_table(
                page,
            )->Some_0 && table_index(other, level) == table_index(page, 1)),
    ensures
        memory.unmap(page).translate(address_of(other)) == memory.translate(address_of(other)),
{
    let i1 = table_index(page, 1);
    let j4 = table_index(other, 4);
    let j3 = table_index(other, 3);
    let j2 = table_index(other, 2);
    let j1 = table_index(other, 1);
    let root = memory.root;
    lemma_page_address_round_trip(0, other);
    let p1 = memory.leaf_table(page)->Some_0;
    let q3 = memory.child(root, j4)->Some_0;
    let q2 = memory.child(q3, j3)->Some_0;
    let q1 = memory.child(q2, j2)->Some_0;
    let theirs = memory.walk(other);
    assert(theirs[0] == root && theirs[1] == q3 && theirs[2] == q2 && theirs[3] == q1);
    assert(!(theirs[0] == p1 && j4 == i1));
    assert(!(theirs[1] == p1 && j3 == i1));
    assert(!(theirs[2] == p1 && j2 == i1));
    assert(!(theirs[3] == p1 && j1 == i1));
    lemma_write_zero_frame(memory, p1, i1, 0, root, j4);
    lemma_write_zero_frame(memory, p1, i1, 0, q3, j3);
    lemma_write_zero_frame(memory, p1, i1, 0, q2, j2);
    lemma_write_zero_frame(memory, p1, i1, 0, q1, j1);
}

/// Mapping a page and then unmapping it again leaves its address mapped to
/// nothing, whatever the frames were.
pub proof fn lemma_map_unmap_then_translate(
    memory: MemoryView,
    page: Page,
    frame: Frame,
    answers: Answers,
)
    requires
        memory.wf(),
        page <= MAX_PAGE,
        frame < memory.frame_count(),
    ensures
        memory.map_page(page, frame, answers).memory.unmap(page).translate(address_of(page))
            is None,
{
    lemma_map_keeps_shape(memory, page, frame, answers);
    lemma_unmap_then_translate(memory.map_page(page, frame, answers).memory, page);
}

/// Mapping a page keeps the self-map in place where the four tables on the
/// walk and the frame are five different frames.
pub proof fn lemma_map_keeps_self_map(
    memory: MemoryView,
    page: Page,
    frame: Frame,
    answers: Answers,
)
    requires
        memory.wf(),
        memory.self_mapped(),
        page <= MAX_PAGE,
        frame < memory.frame_count(),
        memory.map_page(page, frame, answers).result is Ok,
        memory.walk_or_create(page, answers).tables.push(frame).no_duplicates(),
    ensures
        memory.map_page(page, frame, answers).memory.self_mapped(),
{
    let i4 = table_index(page, 4);
    let i3 = table_index(page, 3);
    let i2 = table_index(page, 2);
    let i1 = table_index(page, 1);
    let root = memory.root;
    let walk = memory.walk_or_create(page, answers);
    let all = walk.tables.push(frame);
    let d3 = memory.descend(root, i4, answers.p3);
    let p3 = d3.table->Ok_0;
    let d2 = d3.memory.descend(p3, i3, answers.p2);
    let p2 = d2.table->Ok_0;
    let d1 = d2.memory.descend(p2, i2, answers.p1);
    let p1 = d1.table->Ok_0;
    assert(all[0] == root && all[1] == p3 && all[2] == p2 && all[3] == p1 && all[4] == frame);
    assert(root != p3 && root != p2 && root != p1 && root != frame);
    lemma_descend(memory, root, i4, answers.p3);
    lemma_descend(d3.memory, p3, i3, answers.p2);
    lemma_descend(d2.memory, p2, i2, answers.p1);
    // The top-level table's entry 511 has a table behind it, so the first
    // step does not write it; the later steps write to other frames.
    assert(d3.memory.entry(root, 511) == memory.entry(root, 511)) by {
        if i4 == 511 {
            assert(memory.child(root, i4) is Some);
            assert(d3.memory == memory);
        }
    }
    assert(d2.memory.entry(root, 511) == d3.memory.entry(root, 511));
    assert(d1.memory.entry(root, 511) == d2.memory.entry(root, 511));
    let m4 = d1.memory.write(p1, i1, entry_for(frame));
    lemma_write_zero_frame(d1.memory, p1, i1, entry_for(frame), root, 511);
    lemma_write_zero_frame(m4, frame, 0, 0, root, 511);
}

/// For a table's address, which has offset 0, and an index below 512: the
/// child's address is the address of the entry times 512, cut to 64 bits; it
/// has offset 0; and its indices are those of the parent's address moved up by
/// one level, with the entry's index as the last.
pub proof fn lemma_child_table_address(parent: VirtualAddress, index: u64)
    requires
        parent % 4096 == 0,
        index < 512,
    ensures
        child_table_address(parent, index) == ((parent + index * 8) * 512)
            % 0x1_0000_0000_0000_0000,
        child_table_address(parent, index) % 4096 == 0,
        table_index(page_of(child_table_address(parent, index)), 4) == table_index(
            page_of(parent),
            3,
        ),
        table_index(page_of(child_table_address(parent, index)), 3) == table_index(
            page_of(parent),
            2,
        ),
        table_index(page_of(child_table_address(parent, index)), 2) == table_index(
            page_of(parent),
            1,
        ),
        table_index(page_of(child_table_address(parent, index)), 1) == index,
{
    assert(parent % 4096 == 0 && index < 512 ==> {
        let child = (parent | (index << 3)) << 9;
        &&& child == ((parent + index * 8) * 512) % 0x1_0000_0000_0000_0000
        &&& child % 4096 == 0
        &&& ((child / 4096) % 0x10_0000_0000) / 0x800_0000 % 512 == ((parent / 4096)
            % 0x10_0000_0000) / 0x4_0000 % 512
        &&& ((child / 4096) % 0x10_0000_0000) / 0x4_0000 % 512 == ((parent / 4096)
            % 0x10_0000_0000) / 512 % 512
        &&& ((child / 4096) % 0x10_0000_0000) / 512 % 512 == ((parent / 4096) % 0x10_0000_0000)
            % 512
        &&& ((child / 4096) % 0x10_0000_0000) % 512 == index
    }) by (bit_vector);
}

/// Through the self-map the top-level table can be read as ordinary memory:
/// its fixed address is mapped to the frame that holds it.
pub proof fn lemma_self_map_root(memory: MemoryView)
    requires
        memory.wf(),
        memory.self_mapped(),
    ensures
        memory.translate(ACTIVE_P4_TABLE_ADDRESS) == Some((memory.root * 4096) as PhysicalAddress),
{
    let page = page_of(ACTIVE_P4_TABLE_ADDRESS);
    assert(page == MAX_PAGE);
    assert(table_index(page, 4) == 511 && table_index(page, 3) == 511 && table_index(page, 2)
        == 511 && table_index(page, 1) == 511);
    assert(memory.leaf_table(page) == Some(memory.root));
}

/// Through the self-map every table can be read as ordinary memory: where an
/// address with top-level index 511 is mapped to a table, the address of a
/// child table is mapped to the frame that the table's entry points at, or to
/// nothing if the entry is not present.
pub proof fn lemma_self_map(memory: MemoryView, parent: VirtualAddress, index: u64)
    requires
        memory.wf(),
        memory.self_mapped(),
        index < 512,
        parent % 4096 == 0,
        table_index(page_of(parent), 4) == 511,
        memory.translate(parent) matches Some(address) && address / 4096 < memory.frame_count(),
    ensures
        ({
            let table = (memory.translate(parent)->Some_0 / 4096) as Frame;
            let entry = memory.entry(table, index as nat);
            memory.translate(child_table_address(parent, index)) == if entry_present(entry) {
                Some((entry_frame(entry) * 4096) as PhysicalAddress)
            } else {
                None
            }
        }),
{
    lemma_child_table_address(parent, index);
    let child = child_table_address(parent, index);
    let page = page_of(parent);
    let below = page_of(child);
    let root = memory.root;
    assert(memory.child(root, table_index(page, 4)) == Some(root));
    let p2 = memory.child(root, table_index(page, 3))->Some_0;
    let p1 = memory.child(p2, table_index(page, 2))->Some_0;
    assert(memory.leaf_table(page) == Some(p1));
    let leaf = memory.entry(p1, table_index(page, 1));
    let table = entry_frame(leaf);
    assert(memory.translate(parent) == Some((table * 4096 + parent % 4096) as PhysicalAddress));
    assert(table == (memory.translate(parent)->Some_0 / 4096) as Frame);
    assert(memory.child(p1, table_index(page, 1)) == Some(table));
    assert(memory.child(root, table_index(below, 4)) == Some(p2));
    assert(memory.child(p2, table_index(below, 3)) == Some(p1));
    assert(memory.child(p1, table_index(below, 2)) == Some(table));
    assert(memory.leaf_table(below) == Some(table));
    assert(child % 4096 == 0);
}

} // verus!
