//! System-call dispatch: decoding the call, fixing the saved segments, and
//! the IPC and yield calls that hand tasks between the scheduler and the
//! channels.

use vstd::prelude::*;
use crate::context::RegisterState;
use crate::gdt::Selectors;
use crate::ipc::{ChannelView, Message, message_word, parked_id, RECV_WOULD_BLOCK, SEND_WOULD_BLOCK};
use crate::threads::{
    Kernel, KernelView, Resume, Thread, ThreadView, resume_of, switched, USER_CODE_END, USER_CODE_START,
};

verus! {

/// Error code written to a task that names a handle it does not have.
pub const SYSCALL_ERROR_INVALID_HANDLE: u64 = 3;

/// Takes ownership of a value and releases it.
pub fn drop<T>(_value: T) {
}

/// A decoded system call.
#[derive(Clone, Copy, Debug, PartialEq, Eq, Structural)]
pub enum Syscall {
    Hello,
    Write { ptr: u64, len: u64 },
    Send { handle: u64, value: u64 },
    Receive { handle: u64 },
    Yield,
    Unknown { id: u64 },
}

/// The call that number `id` with arguments `arg1` and `arg2` makes.
pub open spec fn syscall_of(id: u64, arg1: u64, arg2: u64) -> Syscall {
    if id == 0 {
        Syscall::Hello
    } else if id == 1 {
        Syscall::Write { ptr: arg1, len: arg2 }
    } else if id == 2 {
        Syscall::Send { handle: arg1, value: arg2 }
    } else if id == 3 {
        Syscall::Receive { handle: arg1 }
    } else if id == 4 {
        Syscall::Yield
    } else {
        Syscall::Unknown { id }
    }
}

/// Decodes a system call from its number and arguments.
pub fn decode_syscall(id: u64, arg1: u64, arg2: u64) -> (r: Syscall)
    ensures
        r == syscall_of(id, arg1, arg2),
{
    if id == 0 {
        Syscall::Hello
    } else if id == 1 {
        Syscall::Write { ptr: arg1, len: arg2 }
    } else if id == 2 {
        Syscall::Send { handle: arg1, value: arg2 }
    } else if id == 3 {
        Syscall::Receive { handle: arg1 }
    } else if id == 4 {
        Syscall::Yield
    } else {
        Syscall::Unknown { id }
    }
}

/// How the system-call entry leaves.
#[derive(Clone, Copy, Debug)]
pub enum SyscallExit {
    /// The calling task goes on with these registers.
    Return(RegisterState),
    /// The calling task is suspended; resume this one instead (`None`: no task
    /// is ready).
    Launch(Option<Resume>),
}

/// Whether `rip` lies in the window user programs are loaded into.
pub open spec fn in_user_code(rip: u64) -> bool {
    USER_CODE_START <= rip < USER_CODE_END
}

/// Whether the system-call entry returns to `rip` with `sysretq`; otherwise
/// it restores the flags and jumps, staying in ring 0.
pub fn returns_via_sysret(rip: u64) -> (r: bool)
    ensures
        r == in_user_code(rip),
{
    USER_CODE_START <= rip && rip < USER_CODE_END
}

/// The frame with the code and stack selectors of the ring that `rip` runs in.
pub open spec fn with_ring_segments(frame: RegisterState, sel: Selectors) -> RegisterState {
    if frame.rip < USER_CODE_START {
        RegisterState { cs: sel.kernel_code as u64, ss: sel.kernel_data as u64, ..frame }
    } else {
        RegisterState { cs: sel.user_code as u64, ss: sel.user_data as u64, ..frame }
    }
}

/// Writes into a saved frame the selectors of the ring its `rip` belongs to,
/// so that a later switch returns to that ring.
pub fn set_ring_segments(frame: RegisterState, sel: &Selectors) -> (r: RegisterState)
    ensures
        r == with_ring_segments(frame, *sel),
{
    let (code, data) = if frame.rip < USER_CODE_START {
        crate::gdt::get_kernel_segments(sel)
    } else {
        crate::gdt::get_user_segments(sel)
    };
    let mut r = frame;
    r.cs = code as u64;
    r.ss = data as u64;
    r
}

/// The caller of a system call: the current task, saved at `context` with `frame`.
pub open spec fn caller_of(c: ThreadView, context: u64, frame: RegisterState) -> ThreadView {
    ThreadView { context, frame, ..c }
}

/// The caller goes on with `caller` as current task; the queue becomes `ready`
/// and the channels `channels`.
pub open spec fn goes_on(
    k0: KernelView,
    k: KernelView,
    r: SyscallExit,
    caller: ThreadView,
    ready: Seq<ThreadView>,
    channels: Seq<ChannelView>,
) -> bool {
    &&& k == KernelView { current: Some(caller), ready, channels, ..k0 }
    &&& r == SyscallExit::Return(caller.frame)
}

/// The caller is parked in channel `ch`, which becomes `c`, and the front of
/// the queue is launched.
pub open spec fn parks(k0: KernelView, k: KernelView, r: SyscallExit, ch: int, c: ChannelView) -> bool {
    let k1 = KernelView { current: None, channels: k0.channels.update(ch, c), ..k0 };
    &&& k.ready == switched(k1, 0, k0.current.unwrap().frame, 0).0
    &&& k.current == switched(k1, 0, k0.current.unwrap().frame, 0).1
    &&& k.ready == (if k1.ready.len() == 0 { k1.ready } else { k1.ready.drop_first() })
    &&& k.current == (if k1.ready.len() == 0 { None } else { Some(k1.ready[0]) })
    &&& k.channels == k1.channels
    &&& k.issued == k0.issued
    &&& k.selectors == k0.selectors
    &&& r == SyscallExit::Launch(resume_of(k.current))
}

/// What `sys_yield` does from state `k0` to state `k`, returning `r`.
pub open spec fn yield_spec(
    k0: KernelView,
    context: u64,
    frame: RegisterState,
    cr3: u64,
    k: KernelView,
    r: SyscallExit,
) -> bool {
    &&& k.ready == switched(k0, context, frame, cr3).0
    &&& k.current == switched(k0, context, frame, cr3).1
    &&& k.channels == k0.channels
    &&& k.issued == k0.issued
    &&& k.selectors == k0.selectors
    &&& r == SyscallExit::Launch(resume_of(k.current))
}

/// What `ipc_write` does from state `k0` to state `k`, returning `r`.
pub open spec fn ipc_write_spec(
    k0: KernelView,
    context: u64,
    frame: RegisterState,
    handle: u64,
    data: u64,
    k: KernelView,
    r: SyscallExit,
) -> bool {
    match k0.current {
        None => k == k0 && r == SyscallExit::Return(frame),
        Some(c) => {
            let caller = caller_of(c, context, frame);
            if handle >= c.handles.len() {
                goes_on(k0, k, r, caller.returning(SYSCALL_ERROR_INVALID_HANDLE), k0.ready, k0.channels)
            } else {
                let ch = c.handles[handle as int] as int;
                match k0.channels[ch] {
                    ChannelView::Empty => parks(
                        k0,
                        k,
                        r,
                        ch,
                        ChannelView::Sending(Some(caller), Message::Short(data)),
                    ),
                    ChannelView::Sending(_, _) => goes_on(
                        k0,
                        k,
                        r,
                        caller.returning(SEND_WOULD_BLOCK),
                        k0.ready,
                        k0.channels,
                    ),
                    ChannelView::Receiving(rec) => goes_on(
                        k0,
                        k,
                        r,
                        caller.returning(0),
                        seq![rec.receiving(data)] + k0.ready,
                        k0.channels.update(ch, ChannelView::Empty),
                    ),
                }
            }
        },
    }
}

/// What `ipc_read` does from state `k0` to state `k`, returning `r`.
pub open spec fn ipc_read_spec(
    k0: KernelView,
    context: u64,
    frame: RegisterState,
    handle: u64,
    k: KernelView,
    r: SyscallExit,
) -> bool {
    match k0.current {
        None => k == k0 && r == SyscallExit::Return(frame),
        Some(c) => {
            let caller = caller_of(c, context, frame);
            if handle >= c.handles.len() {
                goes_on(k0, k, r, caller.returning(SYSCALL_ERROR_INVALID_HANDLE), k0.ready, k0.channels)
            } else {
                let ch = c.handles[handle as int] as int;
                match k0.channels[ch] {
                    ChannelView::Empty => parks(k0, k, r, ch, ChannelView::Receiving(caller)),
                    ChannelView::Sending(snd, m) => goes_on(
                        k0,
                        k,
                        r,
                        caller.receiving(message_word(m)),
                        match snd {
                            Some(s) => seq![s.returning(0)] + k0.ready,
                            None => k0.ready,
                        },
                        k0.channels.update(ch, ChannelView::Empty),
                    ),
                    ChannelView::Receiving(_) => goes_on(
                        k0,
                        k,
                        r,
                        caller.returning(RECV_WOULD_BLOCK),
                        k0.ready,
                        k0.channels,
                    ),
                }
            }
        },
    }
}

/// Rendezvous handoff: when the caller S sends `v` on a channel in which a
/// receiver R waits, R becomes runnable at the front of the queue with
/// `rax = 0` and `rdi = v`, the channel ends empty, and S goes on with `rax = 0`.
pub proof fn lemma_rendezvous_handoff(
    k0: KernelView,
    context: u64,
    frame: RegisterState,
    handle: u64,
    v: u64,
    k: KernelView,
    r: SyscallExit,
)
    requires
        k0.wf(),
        ipc_write_spec(k0, context, frame, handle, v, k, r),
        k0.current is Some,
        handle < k0.current.unwrap().handles.len(),
        k0.channels[k0.current.unwrap().handles[handle as int] as int] is Receiving,
    ensures
        ({
            let ch = k0.current.unwrap().handles[handle as int] as int;
            let rec = k0.channels[ch]->Receiving_0;
            &&& k.channels[ch] == ChannelView::Empty
            &&& k.ready[0].id == rec.id
            &&& k.ready[0].frame == RegisterState { rax: 0, rdi: v, ..rec.frame }
            &&& k.ready.drop_first() == k0.ready
            &&& k.current is Some && k.current.unwrap().id == k0.current.unwrap().id
            &&& k.current.unwrap().frame == RegisterState { rax: 0, ..frame }
            &&& r == SyscallExit::Return(RegisterState { rax: 0, ..frame })
        }),
{
    let ch = k0.current.unwrap().handles[handle as int] as int;
    assert(k0.valid_thread(k0.current.unwrap()));
    assert(ch < k0.channels.len());
    let rec = k0.channels[ch]->Receiving_0;
    assert((seq![rec.receiving(v)] + k0.ready).drop_first() =~= k0.ready);
}

/// Block semantics: a send on a channel that already holds a send, or a
/// receive on a channel that already holds a receiver, leaves every channel
/// as it was and lets the caller go on with error code 1 or 2 in `rax`.
pub proof fn lemma_same_direction_blocks(
    k0: KernelView,
    context: u64,
    frame: RegisterState,
    handle: u64,
    v: u64,
    k_send: KernelView,
    r_send: SyscallExit,
    k_recv: KernelView,
    r_recv: SyscallExit,
)
    requires
        k0.wf(),
        k0.current is Some,
        handle < k0.current.unwrap().handles.len(),
        ipc_write_spec(k0, context, frame, handle, v, k_send, r_send),
        ipc_read_spec(k0, context, frame, handle, k_recv, r_recv),
    ensures
        k0.channels[k0.current.unwrap().handles[handle as int] as int] is Sending ==> {
            &&& k_send.channels == k0.channels
            &&& k_send.ready == k0.ready
            &&& r_send == SyscallExit::Return(RegisterState { rax: SEND_WOULD_BLOCK, ..frame })
        },
        k0.channels[k0.current.unwrap().handles[handle as int] as int] is Receiving ==> {
            &&& k_recv.channels == k0.channels
            &&& k_recv.ready == k0.ready
            &&& r_recv == SyscallExit::Return(RegisterState { rax: RECV_WOULD_BLOCK, ..frame })
        },
{
}

/// Invalid handle: a send or receive naming a handle outside the caller's
/// table leaves every channel and the queue as they were and lets the caller
/// go on with error code 3 in `rax`.
pub proof fn lemma_invalid_handle(
    k0: KernelView,
    context: u64,
    frame: RegisterState,
    handle: u64,
    v: u64,
    k_send: KernelView,
    r_send: SyscallExit,
    k_recv: KernelView,
    r_recv: SyscallExit,
)
    requires
        k0.current is Some,
        handle >= k0.current.unwrap().handles.len(),
        ipc_write_spec(k0, context, frame, handle, v, k_send, r_send),
        ipc_read_spec(k0, context, frame, handle, k_recv, r_recv),
    ensures
        k_send.channels == k0.channels,
        k_recv.channels == k0.channels,
        k_send.ready == k0.ready,
        k_recv.ready == k0.ready,
        r_send == SyscallExit::Return(RegisterState { rax: SYSCALL_ERROR_INVALID_HANDLE, ..frame }),
        r_recv == SyscallExit::Return(RegisterState { rax: SYSCALL_ERROR_INVALID_HANDLE, ..frame }),
{
}

/// The tasks a channel table holds after channel `ch` becomes `c`: those of
/// `c`, and those of the other channels.
proof fn lemma_channel_update_holds(k0: KernelView, ch: int, c: ChannelView, id: u64)
    requires
        k0.wf(),
        0 <= ch < k0.channels.len(),
    ensures
        (KernelView { channels: k0.channels.update(ch, c), ..k0 }).in_channel(id) == (parked_id(c) == Some(id) || (
        k0.in_channel(id) && parked_id(k0.channels[ch]) != Some(id))),
{
    let k = KernelView { channels: k0.channels.update(ch, c), ..k0 };
    if k.in_channel(id) {
        let j = choose|j: int| 0 <= j < k.channels.len() && parked_id(#[trigger] k.channels[j]) == Some(id);
        if j != ch {
            assert(parked_id(k0.channels[j]) == Some(id));
            assert(parked_id(k0.channels[ch]) != Some(id));
        }
    }
    if parked_id(c) == Some(id) {
        assert(parked_id(k.channels[ch]) == Some(id));
    }
    if k0.in_channel(id) && parked_id(k0.channels[ch]) != Some(id) {
        let j = choose|j: int| 0 <= j < k0.channels.len() && parked_id(#[trigger] k0.channels[j]) == Some(id);
        assert(j != ch);
        assert(k.channels[j] == k0.channels[j]);
    }
}

/// The tasks of a queue with one task put in front.
proof fn lemma_front_holds(k: KernelView, t: ThreadView, id: u64)
    ensures
        (KernelView { ready: seq![t] + k.ready, ..k }).in_ready(id) == (t.id == id || k.in_ready(id)),
{
    let k2 = KernelView { ready: seq![t] + k.ready, ..k };
    if k2.in_ready(id) {
        let i = choose|i: int| 0 <= i < k2.ready.len() && (#[trigger] k2.ready[i]).id == id;
        if i > 0 {
            assert(k.ready[i - 1] == k2.ready[i]);
        }
    }
    if k.in_ready(id) {
        let i = choose|i: int| 0 <= i < k.ready.len() && (#[trigger] k.ready[i]).id == id;
        assert(k2.ready[i + 1] == k.ready[i]);
    }
    if t.id == id {
        assert(k2.ready[0] == t);
    }
}

/// The tasks of a queue whose front task becomes current.
proof fn lemma_pop_holds(k0: KernelView, k: KernelView, id: u64)
    requires
        k.ready == (if k0.ready.len() == 0 { k0.ready } else { k0.ready.drop_first() }),
        k.current == (if k0.ready.len() == 0 { None } else { Some(k0.ready[0]) }),
    ensures
        k.in_ready(id) || k.is_current(id) <==> k0.in_ready(id),
{
    if k.in_ready(id) {
        let i = choose|i: int| 0 <= i < k.ready.len() && (#[trigger] k.ready[i]).id == id;
        assert(k0.ready[i + 1] == k.ready[i]);
    }
    if k0.in_ready(id) {
        let i = choose|i: int| 0 <= i < k0.ready.len() && (#[trigger] k0.ready[i]).id == id;
        if i > 0 {
            assert(k.ready[i - 1] == k0.ready[i]);
        }
    }
}

/// A send keeps the tasks held: each is in the queue, current or parked
/// before exactly when it is after.
pub proof fn lemma_send_keeps_tasks(
    k0: KernelView,
    context: u64,
    frame: RegisterState,
    handle: u64,
    data: u64,
    k: KernelView,
    r: SyscallExit,
)
    requires
        k0.wf(),
        ipc_write_spec(k0, context, frame, handle, data, k, r),
    ensures
        k.same_tasks(k0),
{
    if k0.current is None {
        assert(k == k0);
    } else if handle >= k0.current.unwrap().handles.len() {
        assert(k.ready == k0.ready && k.channels == k0.channels);
        assert(k.current.unwrap().id == k0.current.unwrap().id);
        assert forall|id: u64| k.present(id) == k0.present(id) by {}
    } else {
        let c = k0.current.unwrap();
        let ch = c.handles[handle as int] as int;
        assert(k0.valid_thread(c));
        let caller = caller_of(c, context, frame);
        match k0.channels[ch] {
            ChannelView::Empty => {
                let c2 = ChannelView::Sending(Some(caller), Message::Short(data));
                let k1 = KernelView { current: None, channels: k0.channels.update(ch, c2), ..k0 };
                assert(parks(k0, k, r, ch, c2));
                assert forall|id: u64| k.present(id) == k0.present(id) by {
                    lemma_channel_update_holds(k0, ch, c2, id);
                    lemma_pop_holds(k1, k, id);
                }
            },
            ChannelView::Sending(_, _) => {
                assert(k.ready == k0.ready && k.channels == k0.channels);
                assert forall|id: u64| k.present(id) == k0.present(id) by {}
            },
            ChannelView::Receiving(rec) => {
                let t = rec.receiving(data);
                assert(k.ready == seq![t] + k0.ready);
                assert(k.channels == k0.channels.update(ch, ChannelView::Empty));
                assert forall|id: u64| k.present(id) == k0.present(id) by {
                    lemma_channel_update_holds(k0, ch, ChannelView::Empty, id);
                    lemma_front_holds(k0, t, id);
                    if id == rec.id {
                        assert(parked_id(k0.channels[ch]) == Some(id));
                    }
                }
            },
        }
    }
}

/// A receive keeps the tasks held: each is in the queue, current or parked
/// before exactly when it is after.
pub proof fn lemma_receive_keeps_tasks(
    k0: KernelView,
    context: u64,
    frame: RegisterState,
    handle: u64,
    k: KernelView,
    r: SyscallExit,
)
    requires
        k0.wf(),
        ipc_read_spec(k0, context, frame, handle, k, r),
    ensures
        k.same_tasks(k0),
{
    if k0.current is Some && handle < k0.current.unwrap().handles.len() {
        let c = k0.current.unwrap();
        let ch = c.handles[handle as int] as int;
        assert(k0.valid_thread(c));
        let caller = caller_of(c, context, frame);
        match k0.channels[ch] {
            ChannelView::Empty => {
                let c2 = ChannelView::Receiving(caller);
                let k1 = KernelView { current: None, channels: k0.channels.update(ch, c2), ..k0 };
                assert(parks(k0, k, r, ch, c2));
                assert forall|id: u64| k.present(id) == k0.present(id) by {
                    lemma_channel_update_holds(k0, ch, c2, id);
                    lemma_pop_holds(k1, k, id);
                }
            },
            ChannelView::Sending(snd, m) => {
                assert(k.channels == k0.channels.update(ch, ChannelView::Empty));
                match snd {
                    Some(sender) => {
                        let t = sender.returning(0);
                        assert(k.ready == seq![t] + k0.ready);
                        assert forall|id: u64| k.present(id) == k0.present(id) by {
                            lemma_channel_update_holds(k0, ch, ChannelView::Empty, id);
                            lemma_front_holds(k0, t, id);
                            if id == sender.id {
                                assert(parked_id(k0.channels[ch]) == Some(id));
                            }
                        }
                    },
                    None => {
                        assert(k.ready == k0.ready);
                        assert forall|id: u64| k.present(id) == k0.present(id) by {
                            lemma_channel_update_holds(k0, ch, ChannelView::Empty, id);
                        }
                    },
                }
            },
            ChannelView::Receiving(_) => {
                assert(k.ready == k0.ready && k.channels == k0.channels);
                assert forall|id: u64| k.present(id) == k0.present(id) by {}
            },
        }
    } else {
        assert forall|id: u64| k.present(id) == k0.present(id) by {}
    }
}

impl Kernel {
    /// Hands a task back from a channel: the caller becomes current again,
    /// any other task goes to the front of the ready queue. Returns the
    /// caller's registers when `t` is the caller.
    fn hand_back(&mut self, t: Option<Thread>, caller_id: u64) -> (r: Option<RegisterState>)
        requires
            old(self)@.wf(),
            t is Some ==> old(self)@.admits(t.unwrap()@),
        ensures
            final(self)@.wf(),
            forall|id: u64| #[trigger] final(self)@.present(id) == (old(self)@.present(id) || (t is Some && id == t.unwrap()@.id)),
            final(self)@.issued == old(self)@.issued,
            final(self)@.channels == old(self)@.channels,
            match t {
                None => final(self)@ == old(self)@ && r is None,
                Some(t) => if t@.id == caller_id {
                    &&& r == Some(t@.frame)
                    &&& final(self)@.current == Some(t@)
                    &&& final(self)@.ready == match old(self)@.current {
                        Some(c) => seq![c] + old(self)@.ready,
                        None => old(self)@.ready,
                    }
                    &&& final(self)@.selectors == old(self)@.selectors
                } else {
                    &&& r is None
                    &&& final(self)@ == (KernelView { ready: seq![t@] + old(self)@.ready, ..old(self)@ })
                },
            },
    {
        match t {
            Some(t) => {
                if t.id() == caller_id {
                    let regs = t.registers();
                    self.set_current_thread(t);
                    Some(regs)
                } else {
                    self.schedule_thread(t);
                    None
                }
            },
            None => None,
        }
    }

    /// The `send` system call: the current task offers `data` on the channel
    /// of its handle `handle`; the trampoline saved its registers `frame` at
    /// `context_addr`.
    pub fn ipc_write(&mut self, context_addr: u64, frame: RegisterState, handle: u64, data: u64) -> (r: SyscallExit)
        requires
            old(self)@.wf(),
        ensures
            final(self)@.wf(),
            ipc_write_spec(old(self)@, context_addr, frame, handle, data, final(self)@, r),
            final(self)@.same_tasks(old(self)@),
    {
        let ghost k0 = self@;
        let taken = self.take_current_thread();
        let r = match taken {
            None => SyscallExit::Return(frame),
            Some(thread) => {
                let mut thread = thread;
                let current_id = thread.id();
                thread.set_context(context_addr, frame);
                match thread.rendezvous(handle) {
                    None => {
                        thread.return_error(SYSCALL_ERROR_INVALID_HANDLE);
                        let regs = thread.registers();
                        self.set_current_thread(thread);
                        proof {
                            assert(self@.ready =~= k0.ready);
                        }
                        SyscallExit::Return(regs)
                    },
                    Some(ch) => {
                        proof {
                            assert(k0.valid_thread(k0.current.unwrap()));
                        }
                        let (thread1, thread2) = self.rendezvous_send(ch, Some(thread), Message::Short(data));
                        let back2 = self.hand_back(thread2, current_id);
                        let back1 = self.hand_back(thread1, current_id);
                        match back2 {
                            Some(regs) => {
                                proof {
                                    assert(self@.channels =~= k0.channels.update(ch as int, ChannelView::Empty));
                                }
                                SyscallExit::Return(regs)
                            },
                            None => match back1 {
                                Some(regs) => {
                                    proof {
                                        assert(self@.channels =~= k0.channels);
                                    }
                                    SyscallExit::Return(regs)
                                },
                                None => {
                                    // the caller is parked and no task is current: nothing is saved
                                    let next = self.schedule_next(context_addr, frame, 0);
                                    SyscallExit::Launch(next)
                                },
                            },
                        }
                    },
                }
            },
        };
        proof {
            lemma_send_keeps_tasks(k0, context_addr, frame, handle, data, self@, r);
        }
        r
    }

    /// The `yield` system call: a switch as at a timer tick.
    pub fn sys_yield(&mut self, context_addr: u64, frame: RegisterState, cr3: u64) -> (r: SyscallExit)
        requires
            old(self)@.wf(),
        ensures
            final(self)@.wf(),
            yield_spec(old(self)@, context_addr, frame, cr3, final(self)@, r),
            final(self)@.same_tasks(old(self)@),
    {
        let next = self.schedule_next(context_addr, frame, cr3);
        SyscallExit::Launch(next)
    }

    /// Dispatches system call `syscall_id` with arguments `arg1`, `arg2` (no
    /// call reads the third), made by the current task whose registers `frame` the entry
    /// saved at `context_addr`; `cr3` is the active page-table root. The
    /// saved selectors are first set to the ring that `rip` belongs to.
    /// Returns the decoded call, so that the caller performs console output,
    /// and how the entry leaves.
    pub fn syscall_router(
        &mut self,
        context_addr: u64,
        frame: RegisterState,
        cr3: u64,
        syscall_id: u64,
        arg1: u64,
        arg2: u64,
        _arg3: u64,
    ) -> (r: (Syscall, SyscallExit))
        requires
            old(self)@.wf(),
        ensures
            final(self)@.wf(),
            final(self)@.same_tasks(old(self)@),
            r.0 == syscall_of(syscall_id, arg1, arg2),
            ({
                let f = with_ring_segments(frame, old(self)@.selectors);
                match r.0 {
                    Syscall::Send { handle, value } => ipc_write_spec(old(self)@, context_addr, f, handle, value, final(self)@, r.1),
                    Syscall::Receive { handle } => ipc_read_spec(old(self)@, context_addr, f, handle, final(self)@, r.1),
                    Syscall::Yield => yield_spec(old(self)@, context_addr, f, cr3, final(self)@, r.1),
                    _ => final(self)@ == old(self)@ && r.1 == SyscallExit::Return(f),
                }
            }),
    {
        let sel = self.selectors();
        let frame = set_ring_segments(frame, &sel);
        let call = decode_syscall(syscall_id, arg1, arg2);
        let exit = match call {
            Syscall::Send { handle, value } => self.ipc_write(context_addr, frame, handle, value),
            Syscall::Receive { handle } => self.ipc_read(context_addr, frame, handle),
            Syscall::Yield => self.sys_yield(context_addr, frame, cr3),
            _ => SyscallExit::Return(frame),
        };
        (call, exit)
    }

    /// The `recv` system call: the current task asks the channel of its handle
    /// `handle` for a message; the trampoline saved its registers `frame` at
    /// `context_addr`.
    pub fn ipc_read(&mut self, context_addr: u64, frame: RegisterState, handle: u64) -> (r: SyscallExit)
        requires
            old(self)@.wf(),
        ensures
            final(self)@.wf(),
            ipc_read_spec(old(self)@, context_addr, frame, handle, final(self)@, r),
            final(self)@.same_tasks(old(self)@),
    {
        let ghost k0 = self@;
        let taken = self.take_current_thread();
        let r = match taken {
            None => SyscallExit::Return(frame),
            Some(thread) => {
                let mut thread = thread;
                let current_id = thread.id();
                thread.set_context(context_addr, frame);
                match thread.rendezvous(handle) {
                    None => {
                        thread.return_error(SYSCALL_ERROR_INVALID_HANDLE);
                        let regs = thread.registers();
                        self.set_current_thread(thread);
                        proof {
                            assert(self@.ready =~= k0.ready);
                        }
                        SyscallExit::Return(regs)
                    },
                    Some(ch) => {
                        proof {
                            assert(k0.valid_thread(k0.current.unwrap()));
                        }
                        let (thread1, thread2) = self.rendezvous_receive(ch, thread);
                        let back1 = self.hand_back(thread1, current_id);
                        let back2 = self.hand_back(thread2, current_id);
                        match back1 {
                            Some(regs) => {
                                proof {
                                    assert(self@.channels =~= k0.channels.update(ch as int, ChannelView::Empty)
                                        || self@.channels =~= k0.channels);
                                }
                                SyscallExit::Return(regs)
                            },
                            None => {
                                // the caller is parked and no task is current: nothing is saved
                                let next = self.schedule_next(context_addr, frame, 0);
                                SyscallExit::Launch(next)
                            },
                        }
                    },
                }
            },
        };
        proof {
            lemma_receive_keeps_tasks(k0, context_addr, frame, handle, self@, r);
        }
        r
    }
}

} // verus!
