use microkernel::context::RegisterState;
use microkernel::gdt::Selectors;
use microkernel::ipc::{Message, Rendezvous};
use microkernel::syscalls::{SyscallExit, SYSCALL_ERROR_INVALID_HANDLE};
use microkernel::threads::Kernel;

fn selectors() -> Selectors {
    Selectors { kernel_code: 0x08, kernel_data: 0x10, user_code: 0x2B, user_data: 0x33 }
}

fn user_frame(rip: u64) -> RegisterState {
    let mut f = RegisterState::default();
    f.rip = rip;
    f.rbx = 0x55;
    f
}

/// A kernel with one channel and two user tasks holding it; returns the
/// kernel, the channel and the ids (first created, second created). The
/// second task is current, the first waits in the queue.
fn two_tasks_one_channel() -> (Kernel, usize, u64, u64) {
    let mut k = Kernel::new(selectors());
    let c = k.new_channel();
    let u1 = k.new_user_thread(0x2000000, 0x8000, vec![c], Vec::new(), 0x30_0000, Vec::new(), 0x40_0000);
    let u2 = k.new_user_thread(0x2000000, 0x9000, vec![c], Vec::new(), 0x50_0000, Vec::new(), 0x60_0000);
    k.schedule_next(0, RegisterState::default(), 0x1000);
    assert_eq!(k.current_thread().unwrap().id(), u2);
    (k, c, u1, u2)
}

fn current_id(k: &Kernel) -> Option<u64> {
    k.current_thread().map(|t| t.id())
}

#[test]
fn ping_receiver_first() {
    let (mut k, c, u1, u2) = two_tasks_one_channel();
    // U2 receives on the empty channel and is parked; U1 runs.
    match k.ipc_read(0x5_1000, user_frame(0x2000010), 0) {
        SyscallExit::Launch(Some(r)) => assert_eq!(r.address_space, 0x8000),
        other => panic!("receiver was not parked: {:?}", other),
    }
    assert_eq!(current_id(&k), Some(u1));
    match k.channel(c) {
        Rendezvous::Receiving(t) => assert_eq!(t.id(), u2),
        _ => panic!("channel does not hold the receiver"),
    }
    // U1 sends 42.
    match k.ipc_write(0x3_1000, user_frame(0x2000020), 0, 42) {
        SyscallExit::Return(f) => {
            assert_eq!(f.rax, 0);
            assert_eq!(f.rip, 0x2000020);
            assert_eq!(f.rbx, 0x55);
        },
        other => panic!("sender did not go on: {:?}", other),
    }
    assert_eq!(current_id(&k), Some(u1));
    assert!(matches!(k.channel(c), Rendezvous::Empty));
    let r = k.ready_thread(0).unwrap();
    assert_eq!(r.id(), u2);
    assert_eq!(r.registers().rax, 0);
    assert_eq!(r.registers().rdi, 42);
    assert_eq!(r.context_address(), 0x5_1000);
}

#[test]
fn ping_sender_first() {
    let (mut k, c, u1, u2) = two_tasks_one_channel();
    // U2 sends 42 on the empty channel and is parked; U1 runs.
    assert!(matches!(k.ipc_write(0x5_1000, user_frame(0x2000010), 0, 42), SyscallExit::Launch(Some(_))));
    assert_eq!(current_id(&k), Some(u1));
    match k.channel(c) {
        Rendezvous::Sending(Some(t), Message::Short(v)) => {
            assert_eq!(t.id(), u2);
            assert_eq!(*v, 42);
        },
        _ => panic!("channel does not hold the send"),
    }
    // U1 receives.
    match k.ipc_read(0x3_1000, user_frame(0x2000020), 0) {
        SyscallExit::Return(f) => {
            assert_eq!(f.rax, 0);
            assert_eq!(f.rdi, 42);
        },
        other => panic!("receiver did not go on: {:?}", other),
    }
    assert!(matches!(k.channel(c), Rendezvous::Empty));
    let s = k.ready_thread(0).unwrap();
    assert_eq!(s.id(), u2);
    assert_eq!(s.registers().rax, 0);
}

#[test]
fn double_send_would_block() {
    let (mut k, c, u1, u2) = two_tasks_one_channel();
    // U2 sends 1 and is parked; U1 sends 2.
    assert!(matches!(k.ipc_write(0x5_1000, user_frame(0x2000010), 0, 1), SyscallExit::Launch(Some(_))));
    assert_eq!(current_id(&k), Some(u1));
    match k.ipc_write(0x3_1000, user_frame(0x2000020), 0, 2) {
        SyscallExit::Return(f) => assert_eq!(f.rax, 1),
        other => panic!("second sender did not go on: {:?}", other),
    }
    assert_eq!(current_id(&k), Some(u1));
    match k.channel(c) {
        Rendezvous::Sending(Some(t), Message::Short(v)) => {
            assert_eq!(t.id(), u2);
            assert_eq!(*v, 1);
        },
        _ => panic!("the first send did not persist"),
    }
}

#[test]
fn double_receive_would_block() {
    let (mut k, c, u1, u2) = two_tasks_one_channel();
    assert!(matches!(k.ipc_read(0x5_1000, user_frame(0x2000010), 0), SyscallExit::Launch(Some(_))));
    match k.ipc_read(0x3_1000, user_frame(0x2000020), 0) {
        SyscallExit::Return(f) => assert_eq!(f.rax, 2),
        other => panic!("second receiver did not go on: {:?}", other),
    }
    assert_eq!(current_id(&k), Some(u1));
    match k.channel(c) {
        Rendezvous::Receiving(t) => assert_eq!(t.id(), u2),
        _ => panic!("the first receiver did not stay"),
    }
}

#[test]
fn invalid_handle_send_and_receive() {
    let (mut k, c, _u1, u2) = two_tasks_one_channel();
    match k.ipc_write(0x5_1000, user_frame(0x2000010), 1, 9) {
        SyscallExit::Return(f) => assert_eq!(f.rax, SYSCALL_ERROR_INVALID_HANDLE),
        other => panic!("{:?}", other),
    }
    match k.ipc_read(0x5_1000, user_frame(0x2000010), 7) {
        SyscallExit::Return(f) => assert_eq!(f.rax, 3),
        other => panic!("{:?}", other),
    }
    assert_eq!(current_id(&k), Some(u2));
    assert_eq!(k.ready_len(), 1);
    assert!(matches!(k.channel(c), Rendezvous::Empty));
}

#[test]
fn ipc_without_current_task_changes_nothing() {
    let mut k = Kernel::new(selectors());
    let c = k.new_channel();
    match k.ipc_write(0x100, user_frame(0x10), 0, 5) {
        SyscallExit::Return(f) => assert_eq!(f, user_frame(0x10)),
        other => panic!("{:?}", other),
    }
    assert!(matches!(k.channel(c), Rendezvous::Empty));
}

#[test]
fn parked_sender_with_empty_queue_launches_nothing() {
    let mut k = Kernel::new(selectors());
    let c = k.new_channel();
    k.new_user_thread(0x2000000, 0x8000, vec![c], Vec::new(), 0x30_0000, Vec::new(), 0x40_0000);
    k.schedule_next(0, RegisterState::default(), 0x1000);
    assert!(matches!(k.ipc_write(0x100, user_frame(0x10), 0, 5), SyscallExit::Launch(None)));
    assert!(k.current_thread().is_none());
}
