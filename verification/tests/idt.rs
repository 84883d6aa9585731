use os::idt::{
    make_isr, make_isr_has_error_code, pushes_error_code, Delivery, Idt, IdtEntry, IdtHandler,
    IdtIndex, IdtInfo, IsrArg, SavedRegisters, IDT_LIMIT, IDT_SIZE, KERNEL_CODE_SELECTOR,
    TRAP_GATE,
};
use os::pic::PicIndex;

fn registers() -> SavedRegisters {
    SavedRegisters {
        r15: 15,
        r14: 14,
        r13: 13,
        r12: 12,
        r11: 11,
        r10: 10,
        r9: 9,
        r8: 8,
        rbp: 0x7000,
        rdi: 1,
        rsi: 2,
        rbx: 3,
        rdx: 4,
        rcx: 5,
        rax: 6,
        rsp: 0x7ff0,
    }
}

#[test]
fn new_table_has_no_handler() {
    let idt = Idt::new();
    assert_eq!(IDT_SIZE, 256);
    assert_eq!(idt.offset(), 0);
    assert_eq!(idt.info(), IdtInfo { size: 0, offset: 0 });
    for vector in 0..=255u8 {
        assert_eq!(idt.entry(vector), IdtEntry::default());
        assert!(!idt.entry(vector).is_armed());
        assert_eq!(idt.handler(vector), None);
        assert_eq!(
            idt.deliver(vector, registers(), 99),
            Delivery::Unhandled { vector }
        );
    }
}

#[test]
fn breakpoint_handler_is_called_once_with_error_code_zero() {
    let mut idt = Idt::new();
    idt.set_handler(IdtIndex::Breakpoint, make_isr(0x1234_5678_9abc_def0));
    let delivery = idt.deliver(3, registers(), 0xdead);
    assert_eq!(
        delivery,
        Delivery::Call {
            entry: 0x1234_5678_9abc_def0,
            arg: IsrArg { saved: registers(), error_code: 0 },
        }
    );
    match delivery {
        Delivery::Call { arg, .. } => assert_eq!(arg.error_code, 0),
        Delivery::Unhandled { .. } => panic!("the breakpoint has a handler"),
    }
    assert_eq!(idt.deliver(4, registers(), 0), Delivery::Unhandled { vector: 4 });
}

#[test]
fn page_fault_handler_sees_the_pushed_error_code() {
    let mut idt = Idt::new();
    idt.set_handler(IdtIndex::PageFault, make_isr_has_error_code(0x4000));
    assert_eq!(
        idt.deliver(14, registers(), 6),
        Delivery::Call { entry: 0x4000, arg: IsrArg { saved: registers(), error_code: 6 } }
    );
}

#[test]
fn set_handler_arms_the_descriptor() {
    let mut idt = Idt::new();
    let address = 0x1234_5678_9abc_def0;
    idt.set_handler(IdtIndex::DoubleFault, make_isr_has_error_code(address));
    let entry = idt.entry(8);
    assert_eq!(
        entry,
        IdtEntry {
            offset1: 0xdef0,
            selector: 8,
            ist: 0,
            type_attr: 0x8F,
            offset2: 0x9abc,
            offset3: 0x1234_5678,
            zero: 0,
        }
    );
    assert_eq!(entry, IdtEntry::gate(address));
    assert_eq!(entry.selector, KERNEL_CODE_SELECTOR);
    assert_eq!(entry.type_attr, TRAP_GATE);
    assert_eq!(entry.offset(), address);
    assert!(entry.is_armed());
    assert_eq!(idt.handler(8), Some(IdtHandler { entry: address, has_error_code: true }));
    assert!(!idt.entry(7).is_armed());
    assert!(!idt.entry(9).is_armed());
}

#[test]
fn unset_handler_clears_descriptor_and_handler() {
    let mut idt = Idt::new();
    idt.set_handler(IdtIndex::Breakpoint, make_isr(0x1000));
    idt.set_handler(IdtIndex::DivideByZero, make_isr(0x2000));
    idt.unset_handler(IdtIndex::Breakpoint);
    assert_eq!(idt.entry(3), IdtEntry::default());
    assert_eq!(idt.handler(3), None);
    assert_eq!(idt.deliver(3, registers(), 0), Delivery::Unhandled { vector: 3 });
    assert_eq!(idt.handler(0), Some(make_isr(0x2000)));
    // The vector is free again.
    idt.set_handler(IdtIndex::Breakpoint, make_isr(0x3000));
    assert_eq!(idt.entry(3).offset(), 0x3000);
}

#[test]
fn hardware_interrupts_are_bound_by_vector() {
    let mut idt = Idt::new();
    idt.set_irq_handler(PicIndex::Timer.vector(), make_isr(0xAAAA));
    idt.set_irq_handler(PicIndex::Keyboard.vector(), make_isr(0xBBBB));
    assert_eq!(idt.entry(32).offset(), 0xAAAA);
    assert_eq!(idt.entry(33).offset(), 0xBBBB);
    assert_eq!(
        idt.deliver(33, registers(), 7),
        Delivery::Call { entry: 0xBBBB, arg: IsrArg { saved: registers(), error_code: 0 } }
    );
    idt.unset_irq_handler(32);
    assert_eq!(idt.handler(32), None);
    assert_eq!(idt.handler(33), Some(make_isr(0xBBBB)));
}

#[test]
fn load_gives_limit_and_address() {
    let mut idt = Idt::new();
    idt.place_at(0x10_8000);
    assert_eq!(idt.offset(), 0x10_8000);
    assert_eq!(idt.info(), IdtInfo::default());
    let info = idt.load();
    assert_eq!(info, IdtInfo { size: 4095, offset: 0x10_8000 });
    assert_eq!(info.size, IDT_LIMIT);
    assert_eq!(idt.info(), info);
    // After a move the processor still holds the old address.
    idt.place_at(0x20_0000);
    assert_eq!(idt.info().offset, 0x10_8000);
    assert_eq!(idt.load(), IdtInfo { size: 4095, offset: 0x20_0000 });
}

#[test]
fn vectors_of_the_exceptions() {
    assert_eq!(IdtIndex::DivideByZero.vector(), 0);
    assert_eq!(IdtIndex::Breakpoint.vector(), 3);
    assert_eq!(IdtIndex::DoubleFault.vector(), 8);
    assert_eq!(IdtIndex::GeneralProtectionFault.vector(), 13);
    assert_eq!(IdtIndex::PageFault.vector(), 14);
}

#[test]
fn exceptions_with_an_error_code() {
    let with: [u8; 7] = [8, 10, 11, 12, 13, 14, 17];
    for vector in 0..=255u8 {
        assert_eq!(pushes_error_code(vector), with.contains(&vector));
    }
}

#[test]
fn defaults_are_zero() {
    assert_eq!(IsrArg::default().error_code, 0);
    assert_eq!(SavedRegisters::default().rsp, 0);
    assert_eq!(IdtEntry::default().type_attr, 0);
    assert_eq!(IdtEntry::default().offset(), 0);
    assert_eq!(make_isr(5), IdtHandler { entry: 5, has_error_code: false });
    assert_eq!(make_isr_has_error_code(5), IdtHandler { entry: 5, has_error_code: true });
}
