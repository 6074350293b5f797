use microkernel::context::{RegisterState, CONTEXT_WORDS, INTERRUPT_CONTEXT_SIZE};
use microkernel::cpu::{InterruptIndex, PIC_1_OFFSET};
use microkernel::gdt::{get_kernel_segments, get_user_segments, tss_slot_offset, Selectors, TIMER_INTERRUPT_INDEX};
use microkernel::memory::{copy_action, page_range, BootInfoFrameAllocator, EntryCopy, MemoryRegion};
use microkernel::syscalls::{decode_syscall, returns_via_sysret, set_ring_segments, drop, Syscall, SyscallExit};
use microkernel::threads::Kernel;

fn selectors() -> Selectors {
    Selectors { kernel_code: 0x08, kernel_data: 0x10, user_code: 0x2B, user_data: 0x33 }
}

#[test]
fn frame_words_in_push_order() {
    let mut r = RegisterState::default();
    r.r15 = 15;
    r.r14 = 14;
    r.rax = 100;
    r.rbx = 101;
    r.rip = 200;
    r.cs = 201;
    r.rflags = 202;
    r.rsp = 203;
    r.ss = 204;
    let w = r.to_words();
    assert_eq!(w.len(), CONTEXT_WORDS);
    assert_eq!(CONTEXT_WORDS * 8, INTERRUPT_CONTEXT_SIZE);
    assert_eq!(INTERRUPT_CONTEXT_SIZE, 160);
    assert_eq!(w[0], 15);
    assert_eq!(w[1], 14);
    assert_eq!(w[13], 101);
    assert_eq!(w[14], 100);
    assert_eq!(&w[15..], &[200, 201, 202, 203, 204]);
    assert_eq!(RegisterState::from_words(&w), r);
}

#[test]
fn words_read_as_frame() {
    let w: Vec<u64> = (1..=20).collect();
    let r = RegisterState::from_words(&w);
    assert_eq!(r.r15, 1);
    assert_eq!(r.r8, 8);
    assert_eq!(r.rbp, 9);
    assert_eq!(r.rsi, 10);
    assert_eq!(r.rdi, 11);
    assert_eq!(r.rdx, 12);
    assert_eq!(r.rcx, 13);
    assert_eq!(r.rbx, 14);
    assert_eq!(r.rax, 15);
    assert_eq!(r.rip, 16);
    assert_eq!(r.ss, 20);
    assert_eq!(r.to_words(), w);
}

#[test]
fn sysret_only_inside_user_code_window() {
    assert!(returns_via_sysret(0x2000000));
    assert!(returns_via_sysret(0x4FFFFFF));
    assert!(!returns_via_sysret(0x1FFFFFF));
    assert!(!returns_via_sysret(0x5000000));
    assert!(!returns_via_sysret(0xFFFF_8000_0000_1000));
}

#[test]
fn syscall_numbers_decode() {
    assert_eq!(decode_syscall(0, 1, 2), Syscall::Hello);
    assert_eq!(decode_syscall(1, 0x2000, 5), Syscall::Write { ptr: 0x2000, len: 5 });
    assert_eq!(decode_syscall(2, 0, 42), Syscall::Send { handle: 0, value: 42 });
    assert_eq!(decode_syscall(3, 1, 9), Syscall::Receive { handle: 1 });
    assert_eq!(decode_syscall(4, 0, 0), Syscall::Yield);
    assert_eq!(decode_syscall(9, 0, 0), Syscall::Unknown { id: 9 });
}

#[test]
fn ring_segments_follow_rip() {
    let s = selectors();
    let mut f = RegisterState::default();
    f.rip = 0x1FFFFFF;
    let k = set_ring_segments(f, &s);
    assert_eq!((k.cs, k.ss), (0x08, 0x10));
    f.rip = 0x2000000;
    let u = set_ring_segments(f, &s);
    assert_eq!((u.cs, u.ss), (0x2B, 0x33));
    assert_eq!(get_kernel_segments(&s), (0x08, 0x10));
    assert_eq!(get_user_segments(&s), (0x2B, 0x33));
}

#[test]
fn router_dispatches_and_sets_segments() {
    let mut k = Kernel::new(selectors());
    let c = k.new_channel();
    let u = k.new_user_thread(0x2000000, 0x8000, vec![c], Vec::new(), 0x30_0000, Vec::new(), 0x40_0000);
    k.schedule_next(0, RegisterState::default(), 0x1000);
    let mut f = RegisterState::default();
    f.rip = 0x2000100;
    let (call, exit) = k.syscall_router(0x30_1000, f, 0x8000, 0, 0, 0, 0);
    assert_eq!(call, Syscall::Hello);
    match exit {
        SyscallExit::Return(r) => assert_eq!((r.cs, r.ss, r.rip), (0x2B, 0x33, 0x2000100)),
        other => panic!("{:?}", other),
    }
    let (call, exit) = k.syscall_router(0x30_1000, f, 0x8000, 2, 5, 1, 0);
    assert_eq!(call, Syscall::Send { handle: 5, value: 1 });
    match exit {
        SyscallExit::Return(r) => assert_eq!(r.rax, 3),
        other => panic!("{:?}", other),
    }
    let (call, exit) = k.syscall_router(0x30_1000, f, 0x8000, 4, 0, 0, 0);
    assert_eq!(call, Syscall::Yield);
    match exit {
        SyscallExit::Launch(Some(r)) => {
            assert_eq!(r.context, 0x30_1000);
            assert_eq!(r.frame.cs, 0x2B);
        },
        other => panic!("{:?}", other),
    }
    assert_eq!(k.current_thread().unwrap().id(), u);
}

#[test]
fn frame_allocator_walks_usable_regions() {
    let map = vec![
        MemoryRegion { start: 0x1000, end: 0x3000, usable: true },
        MemoryRegion { start: 0x3000, end: 0x8000, usable: false },
        MemoryRegion { start: 0x10000, end: 0x10800, usable: true },
        MemoryRegion { start: 0x20000, end: 0x20000, usable: true },
    ];
    let mut a = BootInfoFrameAllocator::init(map);
    assert_eq!(a.allocate_frame(), Some(0x1000));
    assert_eq!(a.allocate_frame(), Some(0x2000));
    assert_eq!(a.allocate_frame(), Some(0x10000));
    assert_eq!(a.allocate_frame(), None);
    assert_eq!(a.allocate_frame(), None);
}

#[test]
fn frame_allocator_aligns_down() {
    let map = vec![MemoryRegion { start: 0x1800, end: 0x3900, usable: true }];
    let mut a = BootInfoFrameAllocator::init(map);
    assert_eq!(a.allocate_frame(), Some(0x1000));
    assert_eq!(a.allocate_frame(), Some(0x2000));
    assert_eq!(a.allocate_frame(), Some(0x3000));
    assert_eq!(a.allocate_frame(), None);
}

#[test]
fn page_ranges() {
    assert_eq!(page_range(0x2000000, 0x5000), (0x2000000, 5));
    assert_eq!(page_range(0x2000001, 0x1000), (0x2000000, 2));
    assert_eq!(page_range(0x2000fff, 1), (0x2000000, 1));
    assert_eq!(page_range(0x3000, 0), (0x3000, 0));
    assert_eq!(page_range(u64::MAX - 0xfff, 0x1000), (u64::MAX - 0xfff, 1));
}

#[test]
fn page_table_entry_copy() {
    assert_eq!(copy_action(4, true, 0x3), EntryCopy::Skip);
    assert_eq!(copy_action(1, false, 0x3), EntryCopy::Share);
    assert_eq!(copy_action(2, false, 0x83), EntryCopy::Share);
    assert_eq!(copy_action(4, false, 0x7), EntryCopy::Descend);
}

#[test]
fn descriptor_table_slots() {
    assert_eq!(tss_slot_offset(TIMER_INTERRUPT_INDEX), 0x2c);
    assert_eq!(tss_slot_offset(0), 0x24);
    assert_eq!(InterruptIndex::Timer.as_u8(), 32);
    assert_eq!(InterruptIndex::Timer.as_usize(), PIC_1_OFFSET as usize);
    drop(vec![1u8, 2, 3]);
}
