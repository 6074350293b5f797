use microkernel::context::RegisterState;
use microkernel::gdt::Selectors;
use microkernel::syscalls::SyscallExit;
use microkernel::threads::{
    Kernel, INITIAL_RFLAGS, KERNEL_STACK_SIZE, USER_HEAP_SIZE, USER_HEAP_START, USER_STACK_SIZE,
    USER_STACK_START,
};

fn selectors() -> Selectors {
    Selectors { kernel_code: 0x08, kernel_data: 0x10, user_code: 0x2B, user_data: 0x33 }
}

fn add_kernel_task(k: &mut Kernel, entry: u64, slot: u64) -> u64 {
    k.new_kernel_thread(entry, Vec::new(), 0x10_0000 + slot * 0x10000, Vec::new(), 0x80_0000 + slot * 0x10000)
}

fn current_id(k: &Kernel) -> Option<u64> {
    k.current_thread().map(|t| t.id())
}

fn ready_ids(k: &Kernel) -> Vec<u64> {
    (0..k.ready_len()).map(|i| k.ready_thread(i).unwrap().id()).collect()
}

#[test]
fn kernel_task_initial_frame() {
    let mut k = Kernel::new(selectors());
    let id = k.new_kernel_thread(0x4242, Vec::new(), 0x10_0000, Vec::new(), 0x20_0000);
    assert_eq!(id, 1);
    let t = k.ready_thread(0).unwrap();
    assert_eq!(t.kernel_stack_end(), 0x10_0000 + KERNEL_STACK_SIZE);
    assert_eq!(t.context_address(), 0x10_0000 + KERNEL_STACK_SIZE - 160);
    assert_eq!(t.address_space(), 0);
    let f = t.registers();
    assert_eq!(f.rip, 0x4242);
    assert_eq!(f.rsp, 0x20_0000 + USER_STACK_SIZE);
    assert_eq!(f.rflags, 0x200);
    assert_eq!(f.cs, 0x08);
    assert_eq!(f.ss, 0x10);
    assert_eq!(f.rax, 0);
}

#[test]
fn user_task_initial_frame_and_front_insertion() {
    let mut k = Kernel::new(selectors());
    let a = add_kernel_task(&mut k, 0x1000, 0);
    let c = k.new_channel();
    let u = k.new_user_thread(0x2000_100, 0x5000, vec![c], Vec::new(), 0x30_0000, Vec::new(), 0x40_0000);
    assert_eq!(ready_ids(&k), vec![u, a]);
    let t = k.ready_thread(0).unwrap();
    assert_eq!(t.address_space(), 0x5000);
    assert_eq!(t.rendezvous(0), Some(c));
    assert_eq!(t.rendezvous(1), None);
    let f = t.registers();
    assert_eq!(f.rip, 0x2000_100);
    assert_eq!(f.rsp, USER_STACK_START + USER_STACK_SIZE);
    assert_eq!(f.rsp, 0x3005000);
    assert_eq!(f.rax, USER_HEAP_START);
    assert_eq!(f.rax, 0x0000_0280_0060_0000);
    assert_eq!(f.rcx, USER_HEAP_SIZE);
    assert_eq!(f.rcx, 4 * 1024 * 1024);
    assert_eq!(f.rflags, INITIAL_RFLAGS);
    assert_eq!(f.cs, 0x2B);
    assert_eq!(f.ss, 0x33);
}

#[test]
fn ids_increase_from_one() {
    let mut k = Kernel::new(selectors());
    assert_eq!(k.next_id(), 1);
    assert_eq!(add_kernel_task(&mut k, 0x1000, 0), 2);
    assert_eq!(add_kernel_task(&mut k, 0x1000, 1), 3);
    assert_eq!(k.next_id(), 4);
}

#[test]
fn schedule_next_on_empty_queue_returns_none() {
    let mut k = Kernel::new(selectors());
    assert!(k.schedule_next(0x1234, RegisterState::default(), 0x9000).is_none());
    assert_eq!(current_id(&k), None);
}

#[test]
fn schedule_next_saves_current_and_resumes_front() {
    let mut k = Kernel::new(selectors());
    let a = add_kernel_task(&mut k, 0x1000, 0);
    let b = add_kernel_task(&mut k, 0x2000, 1);
    let first = k.schedule_next(0, RegisterState::default(), 0x7000).unwrap();
    assert_eq!(current_id(&k), Some(a));
    assert_eq!(first.frame.rip, 0x1000);
    assert_eq!(first.kernel_stack_end, 0x10_0000 + KERNEL_STACK_SIZE);
    assert_eq!(first.context, 0x10_0000 + KERNEL_STACK_SIZE - 160);
    assert_eq!(first.address_space, 0);
    let mut saved = RegisterState::default();
    saved.rip = 0x1010;
    saved.rbx = 77;
    let second = k.schedule_next(0xAAA0, saved, 0x7000).unwrap();
    assert_eq!(current_id(&k), Some(b));
    assert_eq!(second.frame.rip, 0x2000);
    assert_eq!(ready_ids(&k), vec![a]);
    let back = k.ready_thread(0).unwrap();
    assert_eq!(back.context_address(), 0xAAA0);
    assert_eq!(back.registers(), saved);
    assert_eq!(back.address_space(), 0x7000);
    let third = k.schedule_next(0xBBB0, RegisterState::default(), 0x7000).unwrap();
    assert_eq!(third.context, 0xAAA0);
    assert_eq!(third.frame.rbx, 77);
    assert_eq!(third.address_space, 0x7000);
}

#[test]
fn fifo_order_of_ready_tasks() {
    let mut k = Kernel::new(selectors());
    let ids: Vec<u64> = (0..4).map(|i| add_kernel_task(&mut k, 0x1000 + i, i)).collect();
    let mut order = Vec::new();
    for _ in 0..8 {
        k.schedule_next(0x5000, RegisterState::default(), 0x1000);
        order.push(current_id(&k).unwrap());
    }
    assert_eq!(order, vec![ids[0], ids[1], ids[2], ids[3], ids[0], ids[1], ids[2], ids[3]]);
}

#[test]
fn yield_fairness_three_kernel_tasks() {
    let mut k = Kernel::new(selectors());
    for i in 0..3 {
        add_kernel_task(&mut k, 0x1000 + i, i);
    }
    let mut printed = Vec::new();
    k.schedule_next(0, RegisterState::default(), 0x1000);
    for _ in 0..9 {
        let me = k.current_thread().unwrap();
        printed.push(me.id());
        let ctx = me.context_address();
        let frame = me.registers();
        match k.sys_yield(ctx, frame, 0x1000) {
            SyscallExit::Launch(Some(_)) => {},
            other => panic!("yield did not switch: {:?}", other),
        }
    }
    assert_eq!(printed, vec![1, 2, 3, 1, 2, 3, 1, 2, 3]);
}

#[test]
fn timer_preempts_lone_user_task_every_tick() {
    let mut k = Kernel::new(selectors());
    let u = k.new_user_thread(0x2000000, 0x8000, Vec::new(), Vec::new(), 0x30_0000, Vec::new(), 0x40_0000);
    k.schedule_next(0, RegisterState::default(), 0x1000);
    assert_eq!(current_id(&k), Some(u));
    for tick in 0..10u64 {
        let mut f = RegisterState::default();
        f.rip = 0x2000000 + tick;
        let r = k.schedule_next(0x30_1000 + tick * 8, f, 0x8000).unwrap();
        assert_eq!(current_id(&k), Some(u));
        assert_eq!(r.context, 0x30_1000 + tick * 8);
        assert_eq!(r.frame.rip, 0x2000000 + tick);
        assert_eq!(r.address_space, 0x8000);
        assert_eq!(k.ready_len(), 0);
    }
}

#[test]
fn timer_alternates_two_user_tasks() {
    let mut k = Kernel::new(selectors());
    let u1 = k.new_user_thread(0x2000000, 0x8000, Vec::new(), Vec::new(), 0x30_0000, Vec::new(), 0x40_0000);
    let u2 = k.new_user_thread(0x2000000, 0x9000, Vec::new(), Vec::new(), 0x50_0000, Vec::new(), 0x60_0000);
    let mut seen = Vec::new();
    for _ in 0..6 {
        let cr3 = k.current_thread().map(|t| t.address_space()).unwrap_or(0x1000);
        let r = k.schedule_next(0x77000, RegisterState::default(), cr3).unwrap();
        seen.push((current_id(&k).unwrap(), r.address_space));
    }
    assert_eq!(seen, vec![(u2, 0x9000), (u1, 0x8000), (u2, 0x9000), (u1, 0x8000), (u2, 0x9000), (u1, 0x8000)]);
}

#[test]
fn take_and_set_current() {
    let mut k = Kernel::new(selectors());
    let a = add_kernel_task(&mut k, 0x1000, 0);
    let b = add_kernel_task(&mut k, 0x2000, 1);
    k.schedule_next(0, RegisterState::default(), 0x1000);
    let t = k.take_current_thread().unwrap();
    assert_eq!(t.id(), a);
    assert_eq!(current_id(&k), None);
    assert!(k.take_current_thread().is_none());
    k.set_current_thread(t);
    assert_eq!(current_id(&k), Some(a));
    let t2 = {
        k.schedule_next(0, RegisterState::default(), 0x1000);
        k.take_current_thread().unwrap()
    };
    assert_eq!(t2.id(), b);
    k.schedule_thread(t2);
    assert_eq!(ready_ids(&k), vec![b, a]);
}

#[test]
fn set_current_moves_old_current_to_front() {
    let mut k = Kernel::new(selectors());
    let a = add_kernel_task(&mut k, 0x1000, 0);
    let b = add_kernel_task(&mut k, 0x2000, 1);
    let c = add_kernel_task(&mut k, 0x3000, 2);
    k.schedule_next(0, RegisterState::default(), 0x1000);
    k.schedule_next(0, RegisterState::default(), 0x1000);
    assert_eq!(current_id(&k), Some(b));
    assert_eq!(ready_ids(&k), vec![c, a]);
    let taken = k.take_current_thread().unwrap();
    k.schedule_next(0, RegisterState::default(), 0x1000);
    assert_eq!(current_id(&k), Some(c));
    assert_eq!(ready_ids(&k), vec![a]);
    k.set_current_thread(taken);
    assert_eq!(current_id(&k), Some(b));
    assert_eq!(ready_ids(&k), vec![c, a]);
}

#[test]
fn every_task_held_once() {
    let mut k = Kernel::new(selectors());
    for i in 0..5 {
        add_kernel_task(&mut k, 0x1000, i);
    }
    for _ in 0..7 {
        k.schedule_next(0x100, RegisterState::default(), 0x1000);
        let mut all = ready_ids(&k);
        all.push(current_id(&k).unwrap());
        all.sort();
        assert_eq!(all, vec![1, 2, 3, 4, 5]);
    }
}
