//! Tasks, the ready queue, the current slot and the id counter.

use vstd::prelude::*;
use crate::context::{RegisterState, zero_frame, INTERRUPT_CONTEXT_SIZE};
use crate::ipc::{
    Message, message_word, Rendezvous, ChannelView, parked, parked_id, opt_view, send_spec,
    receive_spec,
};
use crate::gdt::Selectors;
use std::collections::VecDeque;

verus! {

/// Size of each task's kernel stack, in bytes.
pub const KERNEL_STACK_SIZE: u64 = 8192;
/// Size of a task's user stack, in bytes.
pub const USER_STACK_SIZE: u64 = 20480;
/// Lowest address at which a user program may be loaded.
pub const USER_CODE_START: u64 = 0x2000000;
/// One past the highest address at which a user program may be loaded.
pub const USER_CODE_END: u64 = 0x5000000;
/// Where the user stack of a user task is mapped.
pub const USER_STACK_START: u64 = 0x3000000;
/// Base of the heap range handed to a user task at entry.
pub const USER_HEAP_START: u64 = 0x280_0060_0000;
/// Size of the heap range handed to a user task at entry.
pub const USER_HEAP_SIZE: u64 = 4194304;
/// `rflags` of a fresh kernel task: interrupts enabled.
pub const INITIAL_RFLAGS: u64 = 0x200;

/// What a task is, as the contracts see it.
pub struct ThreadView {
    pub id: u64,
    /// Channel-table indices; a handle is a position in this sequence.
    pub handles: Seq<usize>,
    pub kernel_stack_end: u64,
    pub user_stack_end: u64,
    /// Address of the task's saved frame on its kernel stack.
    pub context: u64,
    /// Physical address of the root page table; zero for a kernel-only task.
    pub address_space: u64,
    /// The registers the task resumes with.
    pub frame: RegisterState,
}

impl ThreadView {
    /// The task with `code` written into its `rax`.
    pub open spec fn returning(self, code: u64) -> ThreadView {
        ThreadView { frame: RegisterState { rax: code, ..self.frame }, ..self }
    }

    /// The task with a delivered message: `rax` zero and the word in `rdi`.
    pub open spec fn receiving(self, word: u64) -> ThreadView {
        ThreadView { frame: RegisterState { rax: 0, rdi: word, ..self.frame }, ..self }
    }
}

/// A task. It is owned by exactly one holder at a time: the ready queue, the
/// current slot or a channel.
pub struct Thread {
    id: u64,
    handles: Vec<usize>,
    kernel_stack: Vec<u8>,
    user_stack: Vec<u8>,
    kernel_stack_end: u64,
    user_stack_end: u64,
    context: u64,
    page_table_physaddr: u64,
    frame: RegisterState,
}

impl View for Thread {
    type V = ThreadView;

    closed spec fn view(&self) -> ThreadView {
        ThreadView {
            id: self.id,
            handles: self.handles@,
            kernel_stack_end: self.kernel_stack_end,
            user_stack_end: self.user_stack_end,
            context: self.context,
            address_space: self.page_table_physaddr,
            frame: self.frame,
        }
    }
}

impl Thread {
    pub fn id(&self) -> (r: u64)
        ensures
            r == self@.id,
    {
        self.id
    }

    /// The channel that handle `handle` names, if the task has that handle.
    pub fn rendezvous(&self, handle: u64) -> (r: Option<usize>)
        ensures
            r == (if handle < self@.handles.len() {
                Some(self@.handles[handle as int])
            } else {
                None::<usize>
            }),
    {
        if handle < self.handles.len() as u64 {
            Some(self.handles[handle as usize])
        } else {
            None
        }
    }

    /// The registers the task resumes with.
    pub fn registers(&self) -> (r: RegisterState)
        ensures
            r == self@.frame,
    {
        self.frame
    }

    /// Address of the task's saved frame.
    pub fn context_address(&self) -> (r: u64)
        ensures
            r == self@.context,
    {
        self.context
    }

    /// Physical address of the task's root page table, zero for a kernel task.
    pub fn address_space(&self) -> (r: u64)
        ensures
            r == self@.address_space,
    {
        self.page_table_physaddr
    }

    pub fn kernel_stack_end(&self) -> (r: u64)
        ensures
            r == self@.kernel_stack_end,
    {
        self.kernel_stack_end
    }

    /// Records where the task's frame now lies and what it holds.
    pub fn set_context(&mut self, context: u64, frame: RegisterState)
        ensures
            final(self)@ == (ThreadView { context, frame, ..old(self)@ }),
    {
        self.context = context;
        self.frame = frame;
    }

    /// Sets the value the task finds in `rax` when it resumes.
    pub fn return_error(&mut self, error_code: u64)
        ensures
            final(self)@ == old(self)@.returning(error_code),
    {
        self.frame.rax = error_code;
    }

    /// Delivers a message: `rax` zero, the message word in `rdi`.
    pub fn return_message(&mut self, message: Message)
        ensures
            final(self)@ == old(self)@.receiving(message_word(message)),
    {
        self.frame.rax = 0;
        match message {
            Message::Short(value) => {
                self.frame.rdi = value;
            },
            Message::Long => {
                self.frame.rdi = 42;
            },
        }
    }
}

/// Where and how a task resumes: the trampoline stores `frame` at `context`
/// and returns through it, the timer's interrupt-stack slot is set to
/// `kernel_stack_end`, and a non-zero `address_space` is loaded into `cr3`.
#[derive(Clone, Copy, Debug, PartialEq, Eq, Structural)]
pub struct Resume {
    pub context: u64,
    pub frame: RegisterState,
    pub kernel_stack_end: u64,
    pub address_space: u64,
}

pub open spec fn resume_of(t: Option<ThreadView>) -> Option<Resume> {
    match t {
        Some(t) => Some(
            Resume {
                context: t.context,
                frame: t.frame,
                kernel_stack_end: t.kernel_stack_end,
                address_space: t.address_space,
            },
        ),
        None => None,
    }
}

/// A fresh kernel task.
pub open spec fn kernel_task(
    id: u64,
    entry: u64,
    kernel_stack_end: u64,
    user_stack_end: u64,
    sel: Selectors,
) -> ThreadView {
    ThreadView {
        id,
        handles: Seq::empty(),
        kernel_stack_end,
        user_stack_end,
        context: (kernel_stack_end - INTERRUPT_CONTEXT_SIZE) as u64,
        address_space: 0,
        frame: RegisterState {
            rip: entry,
            rsp: user_stack_end,
            rflags: INITIAL_RFLAGS,
            cs: sel.kernel_code as u64,
            ss: sel.kernel_data as u64,
            ..zero_frame()
        },
    }
}

/// A fresh user task entering its program at `entry`.
pub open spec fn user_task(
    id: u64,
    entry: u64,
    address_space: u64,
    handles: Seq<usize>,
    kernel_stack_end: u64,
    user_stack_end: u64,
    sel: Selectors,
) -> ThreadView {
    ThreadView {
        id,
        handles,
        kernel_stack_end,
        user_stack_end,
        context: (kernel_stack_end - INTERRUPT_CONTEXT_SIZE) as u64,
        address_space,
        frame: RegisterState {
            rip: entry,
            rsp: (USER_STACK_START + USER_STACK_SIZE) as u64,
            rflags: INITIAL_RFLAGS,
            cs: sel.user_code as u64,
            ss: sel.user_data as u64,
            rax: USER_HEAP_START,
            rcx: USER_HEAP_SIZE,
            ..zero_frame()
        },
    }
}

/// The ready queue and current task after a switch from `k`: the current task,
/// if any, is saved with `context`, `frame` and `cr3` and goes to the back of
/// the queue; the front of the queue becomes current.
pub open spec fn switched(k: KernelView, context: u64, frame: RegisterState, cr3: u64) -> (
    Seq<ThreadView>,
    Option<ThreadView>,
) {
    let q = match k.current {
        Some(t) => k.ready.push(ThreadView { context, frame, address_space: cr3, ..t }),
        None => k.ready,
    };
    if q.len() == 0 {
        (q, None)
    } else {
        (q.drop_first(), Some(q[0]))
    }
}

/// The scheduler's state as the contracts see it.
pub struct KernelView {
    pub ready: Seq<ThreadView>,
    pub current: Option<ThreadView>,
    pub channels: Seq<ChannelView>,
    /// The last id handed out.
    pub issued: u64,
    pub selectors: Selectors,
}

impl KernelView {
    pub open spec fn in_ready(self, id: u64) -> bool {
        exists|i: int| 0 <= i < self.ready.len() && (#[trigger] self.ready[i]).id == id
    }

    pub open spec fn is_current(self, id: u64) -> bool {
        match self.current {
            Some(t) => t.id == id,
            None => false,
        }
    }

    pub open spec fn in_channel(self, id: u64) -> bool {
        exists|k: int| 0 <= k < self.channels.len() && parked_id(#[trigger] self.channels[k]) == Some(id)
    }

    /// The task with this id is held by the ready queue, the current slot or a channel.
    pub open spec fn present(self, id: u64) -> bool {
        self.in_ready(id) || self.is_current(id) || self.in_channel(id)
    }

    /// No task is held twice: not twice in the queue, not both in two of the
    /// three holders, not in two channels.
    pub open spec fn ids_unique(self) -> bool {
        &&& forall|i: int, j: int|
            0 <= i < j < self.ready.len() ==> (#[trigger] self.ready[i]).id != (#[trigger] self.ready[j]).id
        &&& self.current is Some ==> !self.in_ready(self.current.unwrap().id)
        &&& forall|k: int|
            0 <= k < self.channels.len() && (#[trigger] parked_id(self.channels[k])) is Some ==> {
                let p = parked_id(self.channels[k]).unwrap();
                &&& !self.in_ready(p)
                &&& !self.is_current(p)
                &&& forall|k2: int|
                    0 <= k2 < self.channels.len() && k2 != k ==> parked_id(#[trigger] self.channels[k2]) != Some(p)
            }
    }

    /// A task whose id has been handed out and whose handles name channels.
    pub open spec fn valid_thread(self, t: ThreadView) -> bool {
        &&& 0 < t.id <= self.issued
        &&& forall|j: int| 0 <= j < t.handles.len() ==> (#[trigger] t.handles[j] as int) < self.channels.len()
    }

    pub open spec fn threads_valid(self) -> bool {
        &&& forall|i: int| 0 <= i < self.ready.len() ==> self.valid_thread(#[trigger] self.ready[i])
        &&& self.current is Some ==> self.valid_thread(self.current.unwrap())
        &&& forall|k: int|
            0 <= k < self.channels.len() && (#[trigger] parked(self.channels[k])) is Some ==> self.valid_thread(
                parked(self.channels[k]).unwrap(),
            )
    }

    pub open spec fn wf(self) -> bool {
        self.ids_unique() && self.threads_valid()
    }

    /// A task that may be handed to the scheduler: valid and held nowhere.
    pub open spec fn admits(self, t: ThreadView) -> bool {
        self.valid_thread(t) && !self.present(t.id)
    }

    /// The same tasks are held, each where it may have moved.
    pub open spec fn same_tasks(self, other: KernelView) -> bool {
        forall|id: u64| self.present(id) == other.present(id)
    }
}

/// The scheduler: ready queue, current slot, id counter and channel table.
pub struct Kernel {
    ready: VecDeque<Thread>,
    current: Option<Thread>,
    counter: u64,
    channels: Vec<Rendezvous>,
    selectors: Selectors,
}

impl View for Kernel {
    type V = KernelView;

    closed spec fn view(&self) -> KernelView {
        KernelView {
            ready: self.ready@.map_values(|t: Thread| t@),
            current: opt_view(self.current),
            channels: self.channels@.map_values(|c: Rendezvous| c@),
            issued: self.counter,
            selectors: self.selectors,
        }
    }
}

impl Kernel {
    /// A scheduler with no task and no channel, running tasks under `selectors`.
    pub fn new(selectors: Selectors) -> (k: Kernel)
        ensures
            k@.ready.len() == 0,
            k@.current is None,
            k@.channels.len() == 0,
            k@.issued == 0,
            k@.selectors == selectors,
            k@.wf(),
    {
        let k = Kernel {
            ready: VecDeque::new(),
            current: None,
            counter: 0,
            channels: Vec::new(),
            selectors,
        };
        proof {
            assert(k@.ready =~= Seq::empty());
            assert(k@.channels =~= Seq::empty());
        }
        k
    }

    /// Switches tasks at a timer tick or a yield. The current task, if any,
    /// is saved with the frame the trampoline pushed at `context_addr` and
    /// the active `cr3`, and goes to the back of the queue; the front of the
    /// queue becomes current. Returns where to resume it, or `None` when the
    /// queue is empty (the interrupted code goes on).
    pub fn schedule_next(&mut self, context_addr: u64, frame: RegisterState, cr3: u64) -> (r: Option<Resume>)
        requires
            old(self)@.wf(),
        ensures
            final(self)@.wf(),
            final(self)@.ready == switched(old(self)@, context_addr, frame, cr3).0,
            final(self)@.current == switched(old(self)@, context_addr, frame, cr3).1,
            final(self)@.channels == old(self)@.channels,
            final(self)@.issued == old(self)@.issued,
            final(self)@.selectors == old(self)@.selectors,
            final(self)@.same_tasks(old(self)@),
            r == resume_of(final(self)@.current),
    {
        let ghost k0 = self@;
        let mut taken: Option<Thread> = None;
        std::mem::swap(&mut self.current, &mut taken);
        match taken {
            Some(mut thread) => {
                thread.set_context(context_addr, frame);
                thread.page_table_physaddr = cr3;
                self.ready.push_back(thread);
            },
            None => {},
        }
        let ghost q = self@.ready;
        proof {
            match k0.current {
                Some(t) => {
                    assert(q =~= k0.ready.push(ThreadView { context: context_addr, frame, address_space: cr3, ..t }));
                },
                None => {
                    assert(q =~= k0.ready);
                },
            }
        }
        self.current = self.ready.pop_front();
        proof {
            if q.len() > 0 {
                assert(self@.ready =~= q.drop_first());
                assert(self@.current == Some(q[0]));
            } else {
                assert(self@.ready =~= q);
            }
            self.lemma_switch_keeps_invariant(k0, q);
        }
        match &self.current {
            Some(t) => Some(
                Resume {
                    context: t.context,
                    frame: t.frame,
                    kernel_stack_end: t.kernel_stack_end,
                    address_space: t.page_table_physaddr,
                },
            ),
            None => None,
        }
    }

    proof fn lemma_switch_keeps_invariant(&self, k0: KernelView, q: Seq<ThreadView>)
        requires
            k0.wf(),
            q == match k0.current {
                Some(t) => k0.ready.push(q.last()),
                None => k0.ready,
            },
            k0.current is Some ==> q.last().id == k0.current.unwrap().id && q.last().handles
                == k0.current.unwrap().handles,
            self@.channels == k0.channels,
            self@.issued == k0.issued,
            q.len() > 0 ==> self@.ready == q.drop_first() && self@.current == Some(q[0]),
            q.len() == 0 ==> self@.ready == q && self@.current is None,
        ensures
            self@.wf(),
            self@.same_tasks(k0),
    {
        let k = self@;
        // every task of the queue-with-current is held in k and was held in k0
        assert forall|i: int| 0 <= i < q.len() implies k.in_ready(#[trigger] q[i].id) || k.is_current(q[i].id) by {
            if i > 0 {
                assert(k.ready[i - 1] == q[i]);
            }
        }
        assert forall|id: u64| k.in_ready(id) || k.is_current(id) <==> k0.in_ready(id) || k0.is_current(id) by {
            if k.in_ready(id) {
                let i = choose|i: int| 0 <= i < k.ready.len() && (#[trigger] k.ready[i]).id == id;
                assert(q[i + 1] == k.ready[i]);
                if i + 1 < k0.ready.len() {
                    assert(k0.ready[i + 1].id == id);
                }
            }
            if k.is_current(id) {
                if k0.ready.len() > 0 {
                    assert(k0.ready[0] == q[0]);
                }
            }
            if k0.in_ready(id) {
                let i = choose|i: int| 0 <= i < k0.ready.len() && (#[trigger] k0.ready[i]).id == id;
                assert(q[i] == k0.ready[i]);
            }
            if k0.is_current(id) {
                assert(q[q.len() - 1].id == id);
            }
        }
        assert forall|id: u64| k.present(id) == k0.present(id) by {}
        // distinct ids in q
        assert forall|i: int, j: int| 0 <= i < j < q.len() implies (#[trigger] q[i]).id != (#[trigger] q[j]).id by {
            if j < k0.ready.len() {
                assert(q[i] == k0.ready[i] && q[j] == k0.ready[j]);
            } else {
                assert(q[i] == k0.ready[i]);
                assert(k0.in_ready(q[i].id));
            }
        }
        assert forall|i: int| 0 <= i < q.len() implies k0.valid_thread(#[trigger] q[i]) by {
            if i < k0.ready.len() {
                assert(q[i] == k0.ready[i]);
            }
        }
        if q.len() > 0 {
            assert forall|i: int, j: int| 0 <= i < j < k.ready.len() implies (#[trigger] k.ready[i]).id != (
            #[trigger] k.ready[j]).id by {
                assert(k.ready[i] == q[i + 1] && k.ready[j] == q[j + 1]);
            }
            assert(!k.in_ready(q[0].id)) by {
                if k.in_ready(q[0].id) {
                    let i = choose|i: int| 0 <= i < k.ready.len() && (#[trigger] k.ready[i]).id == q[0].id;
                    assert(k.ready[i] == q[i + 1]);
                }
            }
            assert forall|i: int| 0 <= i < k.ready.len() implies k.valid_thread(#[trigger] k.ready[i]) by {
                assert(k.ready[i] == q[i + 1]);
            }
        }
        assert forall|k1: int| 0 <= k1 < k.channels.len() && (#[trigger] parked_id(k.channels[k1])) is Some implies {
            let p = parked_id(k.channels[k1]).unwrap();
            &&& !k.in_ready(p)
            &&& !k.is_current(p)
        } by {
            let p = parked_id(k.channels[k1]).unwrap();
            assert(k0.in_channel(p));
        }
        assert forall|k1: int| 0 <= k1 < k.channels.len() && (#[trigger] parked(k.channels[k1])) is Some implies k.valid_thread(
            parked(k.channels[k1]).unwrap(),
        ) by {
            assert(k0.valid_thread(parked(k0.channels[k1]).unwrap()));
        }
    }

/// Two views of one task, its registers aside.
    pub open spec fn same_task(a: ThreadView, b: ThreadView) -> bool {
        a.id == b.id && a.handles == b.handles
    }

    /// A channel step keeps the invariant and hands back tasks held nowhere:
    /// `t` is offered to channel `ch` of `k0`, which becomes `k`; each task
    /// handed back is `t` or the task that left the channel.
    proof fn lemma_channel_step(
        k0: KernelView,
        k: KernelView,
        ch: int,
        t: Option<ThreadView>,
        r: (Option<ThreadView>, Option<ThreadView>),
    )
        requires
            k0.wf(),
            0 <= ch < k0.channels.len(),
            t is Some ==> k0.admits(t.unwrap()),
            k.ready == k0.ready,
            k.current == k0.current,
            k.issued == k0.issued,
            k.channels.len() == k0.channels.len(),
            k.channels == k0.channels.update(ch, k.channels[ch]),
            parked(k.channels[ch]) is Some ==> parked(k.channels[ch]) == parked(k0.channels[ch]) || (
            parked(k0.channels[ch]) is None && parked(k.channels[ch]) == t),
            r.0 is Some ==> (t is Some && Self::same_task(r.0.unwrap(), t.unwrap()) && parked(k.channels[ch]) != t) || (
            parked(k0.channels[ch]) is Some && parked(k.channels[ch]) is None && Self::same_task(
                r.0.unwrap(),
                parked(k0.channels[ch]).unwrap(),
            )),
            r.1 is Some ==> (t is Some && Self::same_task(r.1.unwrap(), t.unwrap()) && parked(k.channels[ch]) != t) || (
            parked(k0.channels[ch]) is Some && parked(k.channels[ch]) is None && Self::same_task(
                r.1.unwrap(),
                parked(k0.channels[ch]).unwrap(),
            )),
            r.0 is Some && r.1 is Some ==> t is Some && parked(k0.channels[ch]) is Some && ((Self::same_task(
                r.0.unwrap(),
                t.unwrap(),
            ) && Self::same_task(r.1.unwrap(), parked(k0.channels[ch]).unwrap())) || (Self::same_task(
                r.1.unwrap(),
                t.unwrap(),
            ) && Self::same_task(r.0.unwrap(), parked(k0.channels[ch]).unwrap()))),
        ensures
            k.wf(),
            r.0 is Some ==> k.admits(r.0.unwrap()),
            r.1 is Some ==> k.admits(r.1.unwrap()),
            r.0 is Some && r.1 is Some ==> r.0.unwrap().id != r.1.unwrap().id,
    {
        let old_p = parked(k0.channels[ch]);
        if old_p is Some {
            assert(parked_id(k0.channels[ch]) is Some);
        }
        if t is Some && old_p is Some {
            assert(k0.in_channel(old_p.unwrap().id));
            assert(old_p.unwrap().id != t.unwrap().id);
        }
        assert forall|id: u64| k.in_ready(id) == k0.in_ready(id) && k.is_current(id) == k0.is_current(id) by {}
        assert forall|j: int| 0 <= j < k.channels.len() && j != ch implies k.channels[j] == k0.channels[j] by {}
        // what channel j parks in k
        assert forall|k1: int| 0 <= k1 < k.channels.len() && (#[trigger] parked_id(k.channels[k1])) is Some implies {
            let p = parked_id(k.channels[k1]).unwrap();
            &&& !k.in_ready(p)
            &&& !k.is_current(p)
            &&& forall|k2: int|
                0 <= k2 < k.channels.len() && k2 != k1 ==> parked_id(#[trigger] k.channels[k2]) != Some(p)
        } by {
            let p = parked_id(k.channels[k1]).unwrap();
            if k1 != ch || parked(k.channels[ch]) == old_p {
                assert(parked_id(k0.channels[k1]) == Some(p));
                assert forall|k2: int| 0 <= k2 < k.channels.len() && k2 != k1 implies parked_id(
                    #[trigger] k.channels[k2],
                ) != Some(p) by {
                    if k2 == ch && parked(k.channels[ch]) is Some && parked(k.channels[ch]) != old_p {
                        assert(parked(k.channels[ch]) == t);
                        assert(k0.in_channel(p));
                    }
                }
            } else {
                assert(parked(k.channels[ch]) == t);
                assert(!k0.in_channel(p));
                assert forall|k2: int| 0 <= k2 < k.channels.len() && k2 != k1 implies parked_id(
                    #[trigger] k.channels[k2],
                ) != Some(p) by {
                    assert(k.channels[k2] == k0.channels[k2]);
                }
            }
        }
        assert forall|k1: int| 0 <= k1 < k.channels.len() && (#[trigger] parked(k.channels[k1])) is Some implies k.valid_thread(
            parked(k.channels[k1]).unwrap(),
        ) by {
            if k1 != ch || parked(k.channels[ch]) == old_p {
                assert(parked(k0.channels[k1]) == parked(k.channels[k1]));
            }
        }
        assert forall|i: int| 0 <= i < k.ready.len() implies k.valid_thread(#[trigger] k.ready[i]) by {
            assert(k0.valid_thread(k0.ready[i]));
        }
        assert(k.ids_unique());
        assert(k.threads_valid());
        // a task that left channel `ch`, or `t` when not parked, is held nowhere in k
        assert forall|id: u64| (old_p is Some && parked(k.channels[ch]) is None && id == old_p.unwrap().id) || (t is Some
            && parked(k.channels[ch]) != t && id == t.unwrap().id) implies !k.present(id) by {
            if k.in_channel(id) {
                let j = choose|j: int| 0 <= j < k.channels.len() && parked_id(#[trigger] k.channels[j]) == Some(id);
                if j != ch {
                    assert(k.channels[j] == k0.channels[j]);
                    if old_p is Some && parked(k.channels[ch]) is None && id == old_p.unwrap().id {
                        assert(parked_id(k0.channels[ch]) == Some(id));
                    } else {
                        assert(k0.in_channel(id));
                    }
                } else {
                    if parked(k.channels[ch]) == old_p {
                        assert(k0.in_channel(id));
                    }
                }
            }
            if old_p is Some && parked(k.channels[ch]) is None && id == old_p.unwrap().id {
                assert(parked_id(k0.channels[ch]) == Some(id));
            }
        }
        if old_p is Some {
            assert(k0.valid_thread(old_p.unwrap()));
        }
    }

    /// Offers `message` on channel `channel` on behalf of `thread`, as
    /// `Rendezvous::send` does.
    pub fn rendezvous_send(&mut self, channel: usize, thread: Option<Thread>, message: Message) -> (r: (
        Option<Thread>,
        Option<Thread>,
    ))
        requires
            old(self)@.wf(),
            channel < old(self)@.channels.len(),
            thread is Some ==> old(self)@.admits(thread.unwrap()@),
        ensures
            send_spec(
                old(self)@.channels[channel as int],
                opt_view(thread),
                message,
                final(self)@.channels[channel as int],
                (opt_view(r.0), opt_view(r.1)),
            ),
            final(self)@ == (KernelView {
                channels: old(self)@.channels.update(channel as int, final(self)@.channels[channel as int]),
                ..old(self)@
            }),
            final(self)@.wf(),
            r.0 is Some ==> final(self)@.admits(r.0.unwrap()@),
            r.1 is Some ==> final(self)@.admits(r.1.unwrap()@),
            r.0 is Some && r.1 is Some ==> r.0.unwrap()@.id != r.1.unwrap()@.id,
    {
        let r = self.channels[channel].send(thread, message);
        proof {
            let k0 = old(self)@;
            let k = self@;
            assert(k.channels =~= k0.channels.update(channel as int, k.channels[channel as int]));
            Self::lemma_channel_step(k0, k, channel as int, opt_view(thread), (opt_view(r.0), opt_view(r.1)));
        }
        r
    }

    /// Asks channel `channel` for a message on behalf of `thread`, as
    /// `Rendezvous::receive` does.
    pub fn rendezvous_receive(&mut self, channel: usize, thread: Thread) -> (r: (Option<Thread>, Option<Thread>))
        requires
            old(self)@.wf(),
            channel < old(self)@.channels.len(),
            old(self)@.admits(thread@),
        ensures
            receive_spec(
                old(self)@.channels[channel as int],
                thread@,
                final(self)@.channels[channel as int],
                (opt_view(r.0), opt_view(r.1)),
            ),
            final(self)@ == (KernelView {
                channels: old(self)@.channels.update(channel as int, final(self)@.channels[channel as int]),
                ..old(self)@
            }),
            final(self)@.wf(),
            r.0 is Some ==> final(self)@.admits(r.0.unwrap()@),
            r.1 is Some ==> final(self)@.admits(r.1.unwrap()@),
            r.0 is Some && r.1 is Some ==> r.0.unwrap()@.id != r.1.unwrap()@.id,
    {
        let ghost t = thread@;
        let r = self.channels[channel].receive(thread);
        proof {
            let k0 = old(self)@;
            let k = self@;
            assert(k.channels =~= k0.channels.update(channel as int, k.channels[channel as int]));
            Self::lemma_channel_step(k0, k, channel as int, Some(t), (opt_view(r.0), opt_view(r.1)));
        }
        r
    }

/// Every task held has an id already handed out.
    proof fn lemma_held_ids_issued(k: KernelView, id: u64)
        requires
            k.wf(),
            k.present(id),
        ensures
            0 < id <= k.issued,
    {
        if k.in_ready(id) {
            let i = choose|i: int| 0 <= i < k.ready.len() && (#[trigger] k.ready[i]).id == id;
            assert(k.valid_thread(k.ready[i]));
        }
        if k.in_channel(id) {
            let j = choose|j: int| 0 <= j < k.channels.len() && parked_id(#[trigger] k.channels[j]) == Some(id);
            assert(parked(k.channels[j]) is Some);
            assert(k.valid_thread(parked(k.channels[j]).unwrap()));
        }
    }

    /// Hands out the next task id.
    pub fn next_id(&mut self) -> (r: u64)
        requires
            old(self)@.wf(),
            old(self)@.issued < u64::MAX,
        ensures
            r == old(self)@.issued + 1,
            final(self)@ == (KernelView { issued: r, ..old(self)@ }),
            final(self)@.wf(),
            forall|id: u64| #![auto] final(self)@.present(id) ==> id < r,
    {
        self.counter = self.counter + 1;
        proof {
            let k0 = old(self)@;
            let k = self@;
            assert(k.ready =~= k0.ready);
            assert(k.channels =~= k0.channels);
            assert(k == (KernelView { issued: self.counter, ..k0 }));
            assert forall|id: u64| #![auto] k.present(id) implies id < self.counter by {
                assert(k0.present(id));
                Self::lemma_held_ids_issued(k0, id);
            }
        }
        self.counter
    }

    /// Adds a channel to the table and returns its index.
    pub fn new_channel(&mut self) -> (r: usize)
        requires
            old(self)@.wf(),
            old(self)@.channels.len() < usize::MAX,
        ensures
            r == old(self)@.channels.len(),
            final(self)@ == (KernelView { channels: old(self)@.channels.push(ChannelView::Empty), ..old(self)@ }),
            final(self)@.wf(),
    {
        let r = self.channels.len();
        self.channels.push(Rendezvous::Empty);
        proof {
            let k0 = old(self)@;
            let k = self@;
            assert(k.channels =~= k0.channels.push(ChannelView::Empty));
            assert forall|id: u64| k.in_channel(id) == k0.in_channel(id) by {
                if k.in_channel(id) {
                    let j = choose|j: int| 0 <= j < k.channels.len() && parked_id(#[trigger] k.channels[j]) == Some(id);
                    assert(k0.channels[j] == k.channels[j]);
                }
                if k0.in_channel(id) {
                    let j = choose|j: int| 0 <= j < k0.channels.len() && parked_id(#[trigger] k0.channels[j]) == Some(id);
                    assert(k0.channels[j] == k.channels[j]);
                }
            }
            assert forall|k1: int| 0 <= k1 < k.channels.len() && (#[trigger] parked_id(k.channels[k1])) is Some implies {
                let p = parked_id(k.channels[k1]).unwrap();
                &&& !k.in_ready(p)
                &&& !k.is_current(p)
                &&& forall|k2: int|
                    0 <= k2 < k.channels.len() && k2 != k1 ==> parked_id(#[trigger] k.channels[k2]) != Some(p)
            } by {
                assert(k1 < k0.channels.len());
                assert(k.channels[k1] == k0.channels[k1]);
                let p = parked_id(k.channels[k1]).unwrap();
                assert forall|k2: int| 0 <= k2 < k.channels.len() && k2 != k1 implies parked_id(
                    #[trigger] k.channels[k2],
                ) != Some(p) by {
                    if k2 < k0.channels.len() {
                        assert(k.channels[k2] == k0.channels[k2]);
                    }
                }
            }
            assert forall|k1: int| 0 <= k1 < k.channels.len() && (#[trigger] parked(k.channels[k1])) is Some implies k.valid_thread(
                parked(k.channels[k1]).unwrap(),
            ) by {
                assert(k.channels[k1] == k0.channels[k1]);
                assert(k0.valid_thread(parked(k0.channels[k1]).unwrap()));
            }
            assert forall|i: int| 0 <= i < k.ready.len() implies k.valid_thread(#[trigger] k.ready[i]) by {
                assert(k0.valid_thread(k0.ready[i]));
            }
        }
        r
    }

    /// Puts a task at the back of the ready queue.
    fn enqueue(&mut self, thread: Thread)
        requires
            old(self)@.wf(),
            old(self)@.admits(thread@),
        ensures
            final(self)@ == (KernelView { ready: old(self)@.ready.push(thread@), ..old(self)@ }),
            final(self)@.wf(),
    {
        let ghost t = thread@;
        self.ready.push_back(thread);
        proof {
            let k0 = old(self)@;
            let k = self@;
            assert(k.ready =~= k0.ready.push(t));
            assert(k == (KernelView { ready: k0.ready.push(t), ..k0 }));
            assert forall|id: u64| k.in_ready(id) <==> k0.in_ready(id) || id == t.id by {
                if k.in_ready(id) {
                    let i = choose|i: int| 0 <= i < k.ready.len() && (#[trigger] k.ready[i]).id == id;
                    if i < k0.ready.len() {
                        assert(k0.ready[i] == k.ready[i]);
                    }
                }
                if k0.in_ready(id) {
                    let i = choose|i: int| 0 <= i < k0.ready.len() && (#[trigger] k0.ready[i]).id == id;
                    assert(k.ready[i] == k0.ready[i]);
                }
                if id == t.id {
                    assert(k.ready[k0.ready.len() as int] == t);
                }
            }
            assert forall|i: int, j: int| 0 <= i < j < k.ready.len() implies (#[trigger] k.ready[i]).id != (
            #[trigger] k.ready[j]).id by {
                assert(k.ready[i] == k0.ready[i]);
                if j < k0.ready.len() {
                    assert(k.ready[j] == k0.ready[j]);
                } else {
                    assert(k0.in_ready(k.ready[i].id));
                }
            }
            assert forall|i: int| 0 <= i < k.ready.len() implies k.valid_thread(#[trigger] k.ready[i]) by {
                if i < k0.ready.len() {
                    assert(k.ready[i] == k0.ready[i]);
                }
            }
            assert forall|k1: int| 0 <= k1 < k.channels.len() && (#[trigger] parked_id(k.channels[k1])) is Some implies 
                parked_id(k.channels[k1]).unwrap() != t.id by {
                assert(k0.in_channel(parked_id(k.channels[k1]).unwrap()));
            }
        }
    }

    /// Creates a kernel task that starts at `function` and appends it to the
    /// ready queue. The task owns the two stacks; `kernel_stack_base` and
    /// `user_stack_base` are their addresses. Returns the task's id.
    pub fn new_kernel_thread(
        &mut self,
        function: u64,
        kernel_stack: Vec<u8>,
        kernel_stack_base: u64,
        user_stack: Vec<u8>,
        user_stack_base: u64,
    ) -> (id: u64)
        requires
            old(self)@.wf(),
            old(self)@.issued < u64::MAX,
            kernel_stack_base <= u64::MAX - KERNEL_STACK_SIZE,
            user_stack_base <= u64::MAX - USER_STACK_SIZE,
        ensures
            id == old(self)@.issued + 1,
            final(self)@ == (KernelView {
                ready: old(self)@.ready.push(
                    kernel_task(
                        id,
                        function,
                        (kernel_stack_base + KERNEL_STACK_SIZE) as u64,
                        (user_stack_base + USER_STACK_SIZE) as u64,
                        old(self)@.selectors,
                    ),
                ),
                issued: id,
                ..old(self)@
            }),
            final(self)@.wf(),
    {
        let kernel_stack_end = kernel_stack_base + KERNEL_STACK_SIZE;
        let user_stack_end = user_stack_base + USER_STACK_SIZE;
        let context = kernel_stack_end - INTERRUPT_CONTEXT_SIZE as u64;
        let id = self.next_id();
        let mut frame = RegisterState::default();
        frame.rip = function;
        frame.rsp = user_stack_end;
        frame.rflags = INITIAL_RFLAGS;
        frame.cs = self.selectors.kernel_code as u64;
        frame.ss = self.selectors.kernel_data as u64;
        let thread = Thread {
            id,
            handles: Vec::new(),
            kernel_stack,
            user_stack,
            kernel_stack_end,
            user_stack_end,
            context,
            page_table_physaddr: 0,
            frame,
        };
        proof {
            assert(thread@.handles =~= Seq::empty());
            assert(thread@ == kernel_task(id, function, kernel_stack_end, user_stack_end, self@.selectors));
        }
        self.enqueue(thread);
        id
    }

    /// Creates a user task that enters its program at `entry` in the address
    /// space rooted at `address_space`, holding `handles`, and puts it at the
    /// front of the ready queue. Returns the task's id.
    pub fn new_user_thread(
        &mut self,
        entry: u64,
        address_space: u64,
        handles: Vec<usize>,
        kernel_stack: Vec<u8>,
        kernel_stack_base: u64,
        user_stack: Vec<u8>,
        user_stack_base: u64,
    ) -> (id: u64)
        requires
            old(self)@.wf(),
            old(self)@.issued < u64::MAX,
            kernel_stack_base <= u64::MAX - KERNEL_STACK_SIZE,
            user_stack_base <= u64::MAX - USER_STACK_SIZE,
            forall|j: int| 0 <= j < handles@.len() ==> (#[trigger] handles@[j] as int) < old(self)@.channels.len(),
        ensures
            id == old(self)@.issued + 1,
            final(self)@ == (KernelView {
                ready: seq![
                    user_task(
                        id,
                        entry,
                        address_space,
                        handles@,
                        (kernel_stack_base + KERNEL_STACK_SIZE) as u64,
                        (user_stack_base + USER_STACK_SIZE) as u64,
                        old(self)@.selectors,
                    ),
                ] + old(self)@.ready,
                issued: id,
                ..old(self)@
            }),
            final(self)@.wf(),
    {
        let kernel_stack_end = kernel_stack_base + KERNEL_STACK_SIZE;
        let user_stack_end = user_stack_base + USER_STACK_SIZE;
        let context = kernel_stack_end - INTERRUPT_CONTEXT_SIZE as u64;
        let id = self.next_id();
        let mut frame = RegisterState::default();
        frame.rip = entry;
        frame.rsp = USER_STACK_START + USER_STACK_SIZE;
        frame.rflags = INITIAL_RFLAGS;
        frame.cs = self.selectors.user_code as u64;
        frame.ss = self.selectors.user_data as u64;
        frame.rax = USER_HEAP_START;
        frame.rcx = USER_HEAP_SIZE;
        let ghost hs = handles@;
        let thread = Thread {
            id,
            handles,
            kernel_stack,
            user_stack,
            kernel_stack_end,
            user_stack_end,
            context,
            page_table_physaddr: address_space,
            frame,
        };
        proof {
            assert(thread@ == user_task(id, entry, address_space, hs, kernel_stack_end, user_stack_end, self@.selectors));
        }
        self.schedule_thread(thread);
        id
    }

/// The current task, if any.
    pub fn current_thread(&self) -> (r: Option<&Thread>)
        ensures
            r is Some == self@.current is Some,
            r is Some ==> self@.current == Some(r.unwrap()@),
    {
        match &self.current {
            Some(t) => Some(t),
            None => None,
        }
    }

    /// Number of tasks in the ready queue.
    pub fn ready_len(&self) -> (r: usize)
        ensures
            r == self@.ready.len(),
    {
        self.ready.len()
    }

    /// The task at position `i` of the ready queue, front first.
    pub fn ready_thread(&self, i: usize) -> (r: Option<&Thread>)
        ensures
            i < self@.ready.len() ==> r is Some && r.unwrap()@ == self@.ready[i as int],
            i >= self@.ready.len() ==> r is None,
    {
        if i < self.ready.len() {
            Some(&self.ready[i])
        } else {
            None
        }
    }

    /// Number of channels in the table.
    pub fn channel_count(&self) -> (r: usize)
        ensures
            r == self@.channels.len(),
    {
        self.channels.len()
    }

    /// Channel `ch` of the table.
    pub fn channel(&self, ch: usize) -> (r: &Rendezvous)
        requires
            ch < self@.channels.len(),
        ensures
            r@ == self@.channels[ch as int],
    {
        &self.channels[ch]
    }

    /// The last task id handed out.
    pub fn ids_issued(&self) -> (r: u64)
        ensures
            r == self@.issued,
    {
        self.counter
    }

    /// The selectors tasks run under.
    pub fn selectors(&self) -> (r: Selectors)
        ensures
            r == self@.selectors,
    {
        self.selectors
    }

    /// Detaches the current task, leaving the slot empty.
    pub fn take_current_thread(&mut self) -> (r: Option<Thread>)
        requires
            old(self)@.wf(),
        ensures
            final(self)@ == (KernelView { current: None, ..old(self)@ }),
            opt_view(r) == old(self)@.current,
            final(self)@.wf(),
            r is Some ==> final(self)@.admits(r.unwrap()@),
    {
        let mut taken: Option<Thread> = None;
        std::mem::swap(&mut self.current, &mut taken);
        proof {
            assert(self@ =~= (KernelView { current: None, ..old(self)@ }));
            if taken is Some {
                let id = taken.unwrap()@.id;
                assert(!self@.in_channel(id)) by {
                    if self@.in_channel(id) {
                        let k = choose|k: int| 0 <= k < self@.channels.len() && parked_id(#[trigger] self@.channels[k]) == Some(id);
                        assert(!old(self)@.is_current(id));
                    }
                }
            }
        }
        taken
    }

    /// Puts a task at the front of the ready queue, so that it runs next.
    pub fn schedule_thread(&mut self, thread: Thread)
        requires
            old(self)@.wf(),
            old(self)@.admits(thread@),
        ensures
            final(self)@ == (KernelView { ready: seq![thread@] + old(self)@.ready, ..old(self)@ }),
            final(self)@.wf(),
            forall|id: u64| #[trigger] final(self)@.present(id) == (old(self)@.present(id) || id == thread@.id),
    {
        let ghost t = thread@;
        self.ready.push_front(thread);
        proof {
            let k0 = old(self)@;
            let k = self@;
            assert(k.ready =~= seq![t] + k0.ready);
            assert(k == (KernelView { ready: seq![t] + k0.ready, ..k0 }));
            assert forall|id: u64| k.in_ready(id) <==> k0.in_ready(id) || id == t.id by {
                if k.in_ready(id) {
                    let i = choose|i: int| 0 <= i < k.ready.len() && (#[trigger] k.ready[i]).id == id;
                    if i > 0 {
                        assert(k0.ready[i - 1] == k.ready[i]);
                    }
                }
                if k0.in_ready(id) {
                    let i = choose|i: int| 0 <= i < k0.ready.len() && (#[trigger] k0.ready[i]).id == id;
                    assert(k.ready[i + 1] == k0.ready[i]);
                }
                if id == t.id {
                    assert(k.ready[0] == t);
                }
            }
            assert forall|i: int, j: int| 0 <= i < j < k.ready.len() implies (#[trigger] k.ready[i]).id != (
            #[trigger] k.ready[j]).id by {
                assert(k.ready[j] == k0.ready[j - 1]);
                if i > 0 {
                    assert(k.ready[i] == k0.ready[i - 1]);
                } else {
                    assert(k0.in_ready(k.ready[j].id));
                }
            }
            assert forall|i: int| 0 <= i < k.ready.len() implies k.valid_thread(#[trigger] k.ready[i]) by {
                if i > 0 {
                    assert(k.ready[i] == k0.ready[i - 1]);
                }
            }
            assert forall|k1: int| 0 <= k1 < k.channels.len() && (#[trigger] parked_id(k.channels[k1])) is Some implies 
                parked_id(k.channels[k1]).unwrap() != t.id by {
                assert(k0.in_channel(parked_id(k.channels[k1]).unwrap()));
            }
        }
    }

    /// Makes `thread` the current task; a task that was current goes to the
    /// front of the ready queue.
    pub fn set_current_thread(&mut self, thread: Thread)
        requires
            old(self)@.wf(),
            old(self)@.admits(thread@),
        ensures
            final(self)@.current == Some(thread@),
            final(self)@.ready == match old(self)@.current {
                Some(c) => seq![c] + old(self)@.ready,
                None => old(self)@.ready,
            },
            final(self)@.channels == old(self)@.channels,
            final(self)@.issued == old(self)@.issued,
            final(self)@.selectors == old(self)@.selectors,
            final(self)@.wf(),
            forall|id: u64| #[trigger] final(self)@.present(id) == (old(self)@.present(id) || id == thread@.id),
    {
        let ghost t = thread@;
        let old_current = self.take_current_thread();
        proof {
            let k1 = self@;
            assert(k1.ready == old(self)@.ready);
            assert(k1.channels == old(self)@.channels);
            assert forall|id: u64| #[trigger] old(self)@.present(id) == (k1.present(id) || old(self)@.is_current(id)) by {
                assert(k1.in_ready(id) == old(self)@.in_ready(id));
                assert(k1.in_channel(id) == old(self)@.in_channel(id));
            }
        }
        let mut new_current = Some(thread);
        std::mem::swap(&mut self.current, &mut new_current);
        proof {
            let k1 = KernelView { current: None, ..old(self)@ };
            assert(self@ =~= (KernelView { current: Some(t), ..k1 }));
            assert(!k1.present(t.id));
            assert(self@.ready == k1.ready);
            assert(self@.channels == k1.channels);
            assert forall|id: u64| #[trigger] self@.present(id) == (k1.present(id) || id == t.id) by {
                assert(self@.in_ready(id) == k1.in_ready(id));
                assert(self@.in_channel(id) == k1.in_channel(id));
            }
        }
        match old_current {
            Some(c) => {
                proof {
                    let k = self@;
                    assert(!k.in_ready(c@.id));
                    assert(!k.in_channel(c@.id)) by {
                        if k.in_channel(c@.id) {
                            let j = choose|j: int| 0 <= j < k.channels.len() && parked_id(#[trigger] k.channels[j]) == Some(c@.id);
                            assert(old(self)@.is_current(c@.id));
                        }
                    }
                }
                self.schedule_thread(c);
            },
            None => {},
        }
    }
}

/// The state after the switches `steps`, each made with the saved context
/// address, frame and `cr3` it lists, in order, and nothing else in between.
pub open spec fn after_switches(k: KernelView, steps: Seq<(u64, RegisterState, u64)>) -> KernelView
    decreases steps.len(),
{
    if steps.len() == 0 {
        k
    } else {
        let k1 = after_switches(k, steps.drop_last());
        let s = steps.last();
        KernelView { ready: switched(k1, s.0, s.1, s.2).0, current: switched(k1, s.0, s.1, s.2).1, ..k1 }
    }
}

/// After `m` switches the tasks that were at positions `m..` of the queue are,
/// in the same order, at its front, and the task that was at position `m - 1`
/// runs.
proof fn lemma_switches_advance(k: KernelView, steps: Seq<(u64, RegisterState, u64)>)
    requires
        steps.len() <= k.ready.len(),
    ensures
        after_switches(k, steps).ready.len() >= k.ready.len() - steps.len(),
        after_switches(k, steps).ready.subrange(0, k.ready.len() - steps.len()) == k.ready.subrange(
            steps.len() as int,
            k.ready.len() as int,
        ),
        steps.len() > 0 ==> after_switches(k, steps).current == Some(k.ready[steps.len() - 1]),
    decreases steps.len(),
{
    if steps.len() == 0 {
        assert(k.ready.subrange(0, k.ready.len() as int) =~= k.ready);
    } else {
        let m = steps.len() as int;
        let prev = steps.drop_last();
        lemma_switches_advance(k, prev);
        let k1 = after_switches(k, prev);
        let s = steps.last();
        let q = match k1.current {
            Some(t) => k1.ready.push(ThreadView { context: s.0, frame: s.1, address_space: s.2, ..t }),
            None => k1.ready,
        };
        assert(q.subrange(0, k.ready.len() - (m - 1)) =~= k1.ready.subrange(0, k.ready.len() - (m - 1)));
        assert(q[0] == k.ready.subrange(m - 1, k.ready.len() as int)[0]);
        let big_l = k.ready.len() as int;
        assert forall|x: int| 0 <= x < big_l - m implies #[trigger] q.drop_first()[x] == k.ready[m + x] by {
            assert(q[x + 1] == q.subrange(0, big_l - (m - 1))[x + 1]);
            assert(k1.ready.subrange(0, big_l - (m - 1))[x + 1] == k.ready.subrange(m - 1, big_l)[x + 1]);
        }
        assert(q.drop_first().subrange(0, big_l - m) =~= k.ready.subrange(m, big_l));
    }
}

/// FIFO scheduling: when tasks A and B wait in the queue with A ahead of B,
/// and only switches happen, A runs before B: the switch that starts A is
/// number `i + 1` (A's position `i`), and neither before it nor then does B
/// run.
pub proof fn lemma_fifo_scheduling(k: KernelView, steps: Seq<(u64, RegisterState, u64)>, i: int, j: int)
    requires
        k.wf(),
        0 <= i < j < k.ready.len(),
        steps.len() == i + 1,
    ensures
        after_switches(k, steps).current == Some(k.ready[i]),
        forall|n: int|
            0 <= n <= i + 1 ==> match #[trigger] after_switches(k, steps.take(n)).current {
                Some(t) => t.id != k.ready[j].id,
                None => true,
            },
{
    assert(steps.take(i + 1) =~= steps);
    lemma_switches_advance(k, steps);
    assert forall|n: int| 0 <= n <= i + 1 implies match #[trigger] after_switches(k, steps.take(n)).current {
        Some(t) => t.id != k.ready[j].id,
        None => true,
    } by {
        if n == 0 {
            assert(steps.take(0) =~= Seq::<(u64, RegisterState, u64)>::empty());
            if k.current is Some {
                assert(k.in_ready(k.ready[j].id));
            }
        } else {
            lemma_switches_advance(k, steps.take(n));
            assert(k.ready[n - 1].id != k.ready[j].id);
        }
    }
}

/// Ownership uniqueness: in a well-formed state a task is held by at most one
/// of the ready queue, the current slot and the channels, at most once in the
/// queue and by at most one channel.
pub proof fn lemma_task_held_once(k: KernelView, id: u64)
    requires
        k.wf(),
    ensures
        (k.in_ready(id) ==> !k.is_current(id) && !k.in_channel(id)),
        (k.is_current(id) ==> !k.in_channel(id)),
        forall|i: int, j: int| 0 <= i < j < k.ready.len() && (#[trigger] k.ready[i]).id == id ==> (#[trigger] k.ready[j]).id != id,
        forall|c1: int, c2: int|
            0 <= c1 < c2 < k.channels.len() && #[trigger] parked_id(k.channels[c1]) == Some(id) ==> #[trigger] parked_id(
                k.channels[c2],
            ) != Some(id),
{
    if k.in_channel(id) {
        let c = choose|c: int| 0 <= c < k.channels.len() && parked_id(#[trigger] k.channels[c]) == Some(id);
        assert(parked_id(k.channels[c]) is Some);
    }
    if k.in_ready(id) && k.is_current(id) {
        assert(k.current is Some);
    }
    assert forall|c1: int, c2: int|
        0 <= c1 < c2 < k.channels.len() && #[trigger] parked_id(k.channels[c1]) == Some(id) implies #[trigger] parked_id(
        k.channels[c2],
    ) != Some(id) by {
        assert(parked_id(k.channels[c1]) is Some);
    }
}

} // verus!
