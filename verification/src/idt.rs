//! The interrupt descriptor table and the way a trap reaches its handler.
//!
//! The table holds 256 gate descriptors in the processor's format, and beside
//! them the handlers that were bound. A gate is armed exactly when a handler is
//! bound to its vector.
use vstd::prelude::*;

verus! {

/// Number of vectors, and of gates in the table.
pub const IDT_SIZE: usize = 256;

/// Size of one gate descriptor in bytes.
pub const GATE_BYTES: usize = 16;

/// What the processor is given as the table's size: its bytes less one.
pub const IDT_LIMIT: u16 = 4095;

/// Selector of the kernel's code segment.
pub const KERNEL_CODE_SELECTOR: u16 = 8;

/// Type byte of an armed gate: present, trap gate.
pub const TRAP_GATE: u8 = 0x8F;

/// The exceptions that the kernel names.
#[derive(Debug, Copy, Clone, PartialEq, Eq)]
pub enum IdtIndex {
    DivideByZero,
    Breakpoint,
    DoubleFault,
    GeneralProtectionFault,
    PageFault,
}

impl IdtIndex {
    /// The vector that the processor gives the exception.
    pub open spec fn spec_vector(self) -> u8 {
        match self {
            IdtIndex::DivideByZero => 0,
            IdtIndex::Breakpoint => 3,
            IdtIndex::DoubleFault => 8,
            IdtIndex::GeneralProtectionFault => 13,
            IdtIndex::PageFault => 14,
        }
    }

    #[verifier::when_used_as_spec(spec_vector)]
    pub fn vector(self) -> (vector: u8)
        ensures
            vector == self.spec_vector(),
    {
        match self {
            IdtIndex::DivideByZero => 0,
            IdtIndex::Breakpoint => 3,
            IdtIndex::DoubleFault => 8,
            IdtIndex::GeneralProtectionFault => 13,
            IdtIndex::PageFault => 14,
        }
    }
}

/// Whether the processor pushes an error code when it raises `vector`: it does
/// for the exceptions 8, 10 to 14, and 17.
pub open spec fn spec_pushes_error_code(vector: u8) -> bool {
    vector == 8 || (10 <= vector && vector <= 14) || vector == 17
}

#[verifier::when_used_as_spec(spec_pushes_error_code)]
pub fn pushes_error_code(vector: u8) -> (pushes: bool)
    ensures
        pushes == spec_pushes_error_code(vector),
{
    vector == 8 || (10 <= vector && vector <= 14) || vector == 17
}

/// A gate descriptor. The handler's address is split over three fields.
#[derive(Debug, Copy, Clone, PartialEq, Eq)]
pub struct IdtEntry {
    pub offset1: u16,
    pub selector: u16,
    pub ist: u8,
    pub type_attr: u8,
    pub offset2: u16,
    pub offset3: u32,
    pub zero: u32,
}

impl IdtEntry {
    /// The descriptor of a vector that no handler is bound to: every field is 0.
    pub open spec fn unarmed() -> IdtEntry {
        IdtEntry { offset1: 0, selector: 0, ist: 0, type_attr: 0, offset2: 0, offset3: 0, zero: 0 }
    }

    /// The descriptor that sends a trap to the code at `address`: a present trap gate
    /// in the kernel's code segment, on the stack that is in use.
    pub open spec fn gate_to(address: u64) -> IdtEntry {
        IdtEntry {
            offset1: (address % 0x1_0000) as u16,
            selector: KERNEL_CODE_SELECTOR,
            ist: 0,
            type_attr: TRAP_GATE,
            offset2: (address / 0x1_0000 % 0x1_0000) as u16,
            offset3: (address / 0x1_0000_0000) as u32,
            zero: 0,
        }
    }

    /// The address that this descriptor sends a trap to.
    pub open spec fn spec_offset(&self) -> u64 {
        (self.offset1 + self.offset2 * 0x1_0000 + self.offset3 * 0x1_0000_0000) as u64
    }

    /// Whether the present bit of this descriptor, bit 7 of the type byte, is set.
    pub open spec fn spec_is_armed(&self) -> bool {
        self.type_attr >= 0x80
    }

    /// The descriptor that sends a trap to the code at `address`.
    pub fn gate(address: u64) -> (entry: IdtEntry)
        ensures
            entry == IdtEntry::gate_to(address),
    {
        assert(address as u16 == address % 0x1_0000) by (bit_vector);
        assert((address >> 16) as u16 == address / 0x1_0000 % 0x1_0000) by (bit_vector);
        assert((address >> 32) as u32 == address / 0x1_0000_0000) by (bit_vector);
        IdtEntry {
            offset1: address as u16,
            offset2: (address >> 16) as u16,
            offset3: (address >> 32) as u32,
            type_attr: TRAP_GATE,
            selector: KERNEL_CODE_SELECTOR,
            ist: 0,
            zero: 0,
        }
    }

    #[verifier::when_used_as_spec(spec_offset)]
    pub fn offset(&self) -> (address: u64)
        ensures
            address == self.spec_offset(),
    {
        let low: u64 = self.offset1 as u64;
        let mid: u64 = self.offset2 as u64;
        let high: u64 = self.offset3 as u64;
        low + mid * 0x1_0000 + high * 0x1_0000_0000
    }

    #[verifier::when_used_as_spec(spec_is_armed)]
    pub fn is_armed(&self) -> (armed: bool)
        ensures
            armed == self.spec_is_armed(),
    {
        self.type_attr >= 0x80
    }
}

impl Default for IdtEntry {
    fn default() -> (entry: Self)
        ensures
            entry == IdtEntry::unarmed(),
    {
        IdtEntry { offset1: 0, selector: 0, ist: 0, type_attr: 0, offset2: 0, offset3: 0, zero: 0 }
    }
}

/// What the processor's interrupt table register is loaded with.
#[derive(Debug, Copy, Clone, PartialEq, Eq)]
pub struct IdtInfo {
    pub size: u16,
    pub offset: u64,
}

impl Default for IdtInfo {
    fn default() -> (info: Self)
        ensures
            info == (IdtInfo { size: 0, offset: 0 }),
    {
        IdtInfo { size: 0, offset: 0 }
    }
}

/// The general registers and the stack pointer as they were when the trap
/// was taken, in the order in which the entry code lays them out.
#[derive(Debug, Copy, Clone, PartialEq, Eq)]
pub struct SavedRegisters {
    pub r15: u64,
    pub r14: u64,
    pub r13: u64,
    pub r12: u64,
    pub r11: u64,
    pub r10: u64,
    pub r9: u64,
    pub r8: u64,
    pub rbp: u64,
    pub rdi: u64,
    pub rsi: u64,
    pub rbx: u64,
    pub rdx: u64,
    pub rcx: u64,
    pub rax: u64,
    pub rsp: u64,
}

impl Default for SavedRegisters {
    fn default() -> (registers: Self)
        ensures
            registers == SavedRegisters::zeroed(),
    {
        SavedRegisters {
            r15: 0,
            r14: 0,
            r13: 0,
            r12: 0,
            r11: 0,
            r10: 0,
            r9: 0,
            r8: 0,
            rbp: 0,
            rdi: 0,
            rsi: 0,
            rbx: 0,
            rdx: 0,
            rcx: 0,
            rax: 0,
            rsp: 0,
        }
    }
}

impl SavedRegisters {
    /// Every register 0.
    pub open spec fn zeroed() -> SavedRegisters {
        SavedRegisters {
            r15: 0,
            r14: 0,
            r13: 0,
            r12: 0,
            r11: 0,
            r10: 0,
            r9: 0,
            r8: 0,
            rbp: 0,
            rdi: 0,
            rsi: 0,
            rbx: 0,
            rdx: 0,
            rcx: 0,
            rax: 0,
            rsp: 0,
        }
    }
}

/// What a handler is given: the saved registers, and the error code that the
/// processor pushed, or 0 where the handler was made for a vector without one.
/// It is a copy; a change to it changes nothing in what is restored.
#[derive(Debug, Copy, Clone, PartialEq, Eq)]
pub struct IsrArg {
    pub saved: SavedRegisters,
    pub error_code: u64,
}

impl Default for IsrArg {
    fn default() -> (arg: Self)
        ensures
            arg == (IsrArg { saved: SavedRegisters::zeroed(), error_code: 0 }),
    {
        IsrArg { saved: SavedRegisters::default(), error_code: 0 }
    }
}

/// A handler as it is bound to a vector: the address of its entry code, and
/// whether that code expects the processor to have pushed an error code.
#[derive(Debug, Copy, Clone, PartialEq, Eq)]
pub struct IdtHandler {
    pub entry: u64,
    pub has_error_code: bool,
}

/// The handler at `function`, for a vector on which the processor pushes no
/// error code: the entry code pushes 0 in its place.
pub fn make_isr(function: u64) -> (handler: IdtHandler)
    ensures
        handler == (IdtHandler { entry: function, has_error_code: false }),
{
    IdtHandler { entry: function, has_error_code: false }
}

/// The handler at `function`, for a vector on which the processor pushes an
/// error code.
pub fn make_isr_has_error_code(function: u64) -> (handler: IdtHandler)
    ensures
        handler == (IdtHandler { entry: function, has_error_code: true }),
{
    IdtHandler { entry: function, has_error_code: true }
}

/// What becomes of a trap.
#[derive(Debug, Copy, Clone, PartialEq, Eq)]
pub enum Delivery {
    /// No handler is bound to the vector: the kernel cannot go on.
    Unhandled { vector: u8 },
    /// The handler at `entry` is called once, with `arg`; then the registers in
    /// `arg.saved` are restored and the interrupted code goes on.
    Call { entry: u64, arg: IsrArg },
}

/// The argument that the entry code of `handler` builds from the registers at
/// the trap and from what the processor pushed.
pub open spec fn entry_arg(handler: IdtHandler, registers: SavedRegisters, pushed: u64) -> IsrArg {
    IsrArg {
        saved: registers,
        error_code: if handler.has_error_code {
            pushed
        } else {
            0
        },
    }
}

/// The table as mathematics: where it stands in memory, what the processor was
/// last told, the gates, and the handlers bound.
pub struct IdtView {
    pub base: u64,
    pub info: IdtInfo,
    pub entries: Seq<IdtEntry>,
    pub handlers: Seq<Option<IdtHandler>>,
}

impl IdtView {
    /// Both tables have 256 slots, and each gate is the one that belongs to
    /// the handler bound: armed with the handler's address, or all 0 with none.
    pub open spec fn wf(self) -> bool {
        &&& self.entries.len() == IDT_SIZE
        &&& self.handlers.len() == IDT_SIZE
        &&& forall|v: int|
            0 <= v < IDT_SIZE ==> #[trigger] self.entries[v] == match self.handlers[v] {
                Some(handler) => IdtEntry::gate_to(handler.entry),
                None => IdtEntry::unarmed(),
            }
    }

    /// The table at address 0, nothing loaded, no handler bound.
    pub open spec fn empty() -> IdtView {
        IdtView {
            base: 0,
            info: IdtInfo { size: 0, offset: 0 },
            entries: Seq::new(IDT_SIZE as nat, |v: int| IdtEntry::unarmed()),
            handlers: Seq::new(IDT_SIZE as nat, |v: int| None),
        }
    }

    /// What the processor has to be told for the table as it stands.
    pub open spec fn descriptor(self) -> IdtInfo {
        IdtInfo { size: IDT_LIMIT, offset: self.base }
    }

    /// Whether the processor was told of the table where it now stands.
    pub open spec fn loaded(self) -> bool {
        self.info == self.descriptor()
    }

    /// Whether a handler is bound to `vector`.
    pub open spec fn bound(self, vector: u8) -> bool {
        self.handlers[vector as int] is Some
    }

    /// The table after `handler` is bound to `vector`.
    pub open spec fn bind(self, vector: u8, handler: IdtHandler) -> IdtView {
        IdtView {
            entries: self.entries.update(vector as int, IdtEntry::gate_to(handler.entry)),
            handlers: self.handlers.update(vector as int, Some(handler)),
            ..self
        }
    }

    /// The table after `vector` is left without a handler.
    pub open spec fn unbind(self, vector: u8) -> IdtView {
        IdtView {
            entries: self.entries.update(vector as int, IdtEntry::unarmed()),
            handlers: self.handlers.update(vector as int, None),
            ..self
        }
    }

    /// What becomes of a trap on `vector`, taken with `registers`, for which
    /// the processor pushed `pushed`.
    pub open spec fn deliver(self, vector: u8, registers: SavedRegisters, pushed: u64) -> Delivery {
        match self.handlers[vector as int] {
            Some(handler) => Delivery::Call {
                entry: handler.entry,
                arg: entry_arg(handler, registers, pushed),
            },
            None => Delivery::Unhandled { vector },
        }
    }
}

/// The interrupt descriptor table.
pub struct Idt {
    base: u64,
    info: IdtInfo,
    entries: Vec<IdtEntry>,
    handlers: Vec<Option<IdtHandler>>,
}

impl View for Idt {
    type V = IdtView;

    closed spec fn view(&self) -> IdtView {
        IdtView {
            base: self.base,
            info: self.info,
            entries: self.entries@,
            handlers: self.handlers@,
        }
    }
}

impl Idt {
    /// A table with no handler bound, of which the processor knows nothing.
    pub fn new() -> (idt: Self)
        ensures
            idt@ == IdtView::empty(),
            idt@.wf(),
    {
        let mut entries: Vec<IdtEntry> = Vec::new();
        let mut handlers: Vec<Option<IdtHandler>> = Vec::new();
        let mut i: usize = 0;
        while i < IDT_SIZE
            invariant
                i <= IDT_SIZE,
                entries@.len() == i,
                handlers@.len() == i,
                forall|v: int| 0 <= v < i ==> entries@[v] == IdtEntry::unarmed(),
                forall|v: int| 0 <= v < i ==> handlers@[v] == None::<IdtHandler>,
            decreases IDT_SIZE - i,
        {
            entries.push(IdtEntry::default());
            handlers.push(None);
            i += 1;
        }
        let idt = Self { base: 0, info: IdtInfo::default(), entries, handlers };
        assert(idt@.entries =~= IdtView::empty().entries);
        assert(idt@.handlers =~= IdtView::empty().handlers);
        idt
    }

    /// The address at which the gates stand in memory.
    pub fn offset(&self) -> (address: u64)
        ensures
            address == self@.base,
    {
        self.base
    }

    /// Records that the gates now stand at `address`. What the processor was
    /// told before stays as it was, so the table has to be loaded again.
    pub fn place_at(&mut self, address: u64)
        ensures
            final(self)@ == (IdtView { base: address, ..old(self)@ }),
    {
        self.base = address;
    }

    /// What the processor was last told of the table.
    pub fn info(&self) -> (info: IdtInfo)
        ensures
            info == self@.info,
    {
        self.info
    }

    /// Works out what the interrupt table register has to hold, the size of
    /// the gates less one and their address, and hands it out to be loaded.
    pub fn load(&mut self) -> (info: IdtInfo)
        ensures
            info == old(self)@.descriptor(),
            final(self)@ == (IdtView { info, ..old(self)@ }),
            final(self)@.loaded(),
    {
        self.info.size = (IDT_SIZE * GATE_BYTES - 1) as u16;
        self.info.offset = self.offset();
        self.info
    }

    /// The descriptor of `vector`.
    pub fn entry(&self, vector: u8) -> (entry: IdtEntry)
        requires
            self@.wf(),
        ensures
            entry == self@.entries[vector as int],
    {
        self.entries[vector as usize]
    }

    /// The handler bound to `vector`.
    pub fn handler(&self, vector: u8) -> (handler: Option<IdtHandler>)
        requires
            self@.wf(),
        ensures
            handler == self@.handlers[vector as int],
            handler is Some <==> self@.bound(vector),
            handler is Some <==> self@.entries[vector as int].is_armed(),
    {
        self.handlers[vector as usize]
    }

    /// Binds `handler` to the exception `index`, which has no handler yet, and
    /// arms its gate.
    pub fn set_handler(&mut self, index: IdtIndex, handler: IdtHandler)
        requires
            old(self)@.wf(),
            !old(self)@.bound(index.vector()),
        ensures
            final(self)@ == old(self)@.bind(index.vector(), handler),
            final(self)@.wf(),
    {
        self.set_irq_handler(index.vector(), handler);
    }

    /// Binds `handler` to `vector`, which has no handler yet, and arms its gate.
    pub fn set_irq_handler(&mut self, vector: u8, handler: IdtHandler)
        requires
            old(self)@.wf(),
            !old(self)@.bound(vector),
        ensures
            final(self)@ == old(self)@.bind(vector, handler),
            final(self)@.wf(),
    {
        self.entries.set(vector as usize, IdtEntry::gate(handler.entry));
        self.handlers.set(vector as usize, Some(handler));
    }

    /// Leaves the exception `index` without a handler and clears its gate.
    pub fn unset_handler(&mut self, index: IdtIndex)
        requires
            old(self)@.wf(),
        ensures
            final(self)@ == old(self)@.unbind(index.vector()),
            final(self)@.wf(),
    {
        self.unset_irq_handler(index.vector());
    }

    /// Leaves `vector` without a handler and clears its gate.
    pub fn unset_irq_handler(&mut self, vector: u8)
        requires
            old(self)@.wf(),
        ensures
            final(self)@ == old(self)@.unbind(vector),
            final(self)@.wf(),
    {
        self.entries.set(vector as usize, IdtEntry::default());
        self.handlers.set(vector as usize, None);
    }

    /// What becomes of a trap on `vector`: the entry code of the handler bound
    /// saves `registers`, puts 0 in place of the error code unless the handler
    /// was made for a vector that has one, and calls the handler once.
    pub fn deliver(&self, vector: u8, registers: SavedRegisters, pushed: u64) -> (delivery:
        Delivery)
        requires
            self@.wf(),
        ensures
            delivery == self@.deliver(vector, registers, pushed),
    {
        match self.handlers[vector as usize] {
            Some(handler) => {
                let error_code = if handler.has_error_code {
                    pushed
                } else {
                    0
                };
                Delivery::Call { entry: handler.entry, arg: IsrArg { saved: registers, error_code } }
            },
            None => Delivery::Unhandled { vector },
        }
    }
}

/// A gate made for an address is armed and sends traps to that address; the
/// gate of an unbound vector is not armed.
pub proof fn lemma_gate(address: u64)
    ensures
        IdtEntry::gate_to(address).offset() == address,
        IdtEntry::gate_to(address).is_armed(),
        !IdtEntry::unarmed().is_armed(),
{
}

/// In a well-formed table a gate is armed exactly when a handler is bound to
/// its vector, and then it sends traps to the handler's entry code.
pub proof fn lemma_armed_iff_bound(idt: IdtView, vector: u8)
    requires
        idt.wf(),
    ensures
        idt.entries[vector as int].is_armed() <==> idt.bound(vector),
        idt.bound(vector) ==> idt.entries[vector as int].offset()
            == idt.handlers[vector as int]->Some_0.entry,
{
    if idt.bound(vector) {
        lemma_gate(idt.handlers[vector as int]->Some_0.entry);
    }
}

/// After a handler is bound to a vector, a trap on that vector calls that
/// handler, once, with the registers of the trap; the error code it sees is 0
/// if it was made without one. A trap on another vector goes where it went
/// before. After the vector is unbound, a trap on it is unhandled.
pub proof fn lemma_bind_then_deliver(
    idt: IdtView,
    vector: u8,
    handler: IdtHandler,
    other: u8,
    registers: SavedRegisters,
    pushed: u64,
)
    requires
        idt.wf(),
    ensures
        idt.bind(vector, handler).wf(),
        idt.unbind(vector).wf(),
        idt.bind(vector, handler).deliver(vector, registers, pushed) == (Delivery::Call {
            entry: handler.entry,
            arg: entry_arg(handler, registers, pushed),
        }),
        !handler.has_error_code ==> entry_arg(handler, registers, pushed).error_code == 0,
        other != vector ==> idt.bind(vector, handler).deliver(other, registers, pushed)
            == idt.deliver(other, registers, pushed),
        idt.bind(vector, handler).unbind(vector).deliver(vector, registers, pushed)
            == (Delivery::Unhandled { vector }),
{
}

/// A handler made by `make_isr` and bound to the breakpoint vector is called
/// once by a breakpoint, and the error code it sees is 0.
pub proof fn lemma_breakpoint(idt: IdtView, function: u64, registers: SavedRegisters, pushed: u64)
    requires
        idt.wf(),
    ensures
        idt.bind(
            IdtIndex::Breakpoint.vector(),
            (IdtHandler { entry: function, has_error_code: false }),
        ).deliver(3, registers, pushed) == (Delivery::Call {
            entry: function,
            arg: (IsrArg { saved: registers, error_code: 0 }),
        }),
        !pushes_error_code(IdtIndex::Breakpoint.vector()),
{
}

} // verus!
