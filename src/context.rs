//! The register frame that the interrupt and system-call trampolines push on
//! a task's kernel stack.

use vstd::prelude::*;

verus! {

/// Number of 64-bit words in a saved register frame.
pub const CONTEXT_WORDS: usize = 20;

/// Bytes needed to store a `RegisterState`.
pub const INTERRUPT_CONTEXT_SIZE: usize = 160;

/// The registers of a suspended task. On the stack the words lie in the order
/// of `words_of` (lowest address first): the fifteen general registers in
/// reverse push order, then the frame the CPU pushed on entry.
#[derive(Clone, Copy, Debug, PartialEq, Eq, Structural)]
pub struct RegisterState {
    pub rax: u64,
    pub rbx: u64,
    pub rcx: u64,
    pub rdx: u64,
    pub rdi: u64,
    pub rsi: u64,
    pub rbp: u64,
    pub r8: u64,
    pub r9: u64,
    pub r10: u64,
    pub r11: u64,
    pub r12: u64,
    pub r13: u64,
    pub r14: u64,
    pub r15: u64,
    pub rip: u64,
    pub cs: u64,
    pub rflags: u64,
    pub rsp: u64,
    pub ss: u64,
}

/// A frame with every register zero.
pub open spec fn zero_frame() -> RegisterState {
    RegisterState {
        rax: 0, rbx: 0, rcx: 0, rdx: 0, rdi: 0, rsi: 0, rbp: 0,
        r8: 0, r9: 0, r10: 0, r11: 0, r12: 0, r13: 0, r14: 0, r15: 0,
        rip: 0, cs: 0, rflags: 0, rsp: 0, ss: 0,
    }
}

/// The words of a frame as they lie in memory, lowest address first.
pub open spec fn words_of(r: RegisterState) -> Seq<u64> {
    seq![
        r.r15, r.r14, r.r13, r.r12, r.r11, r.r10, r.r9, r.r8, r.rbp, r.rsi,
        r.rdi, r.rdx, r.rcx, r.rbx, r.rax, r.rip, r.cs, r.rflags, r.rsp, r.ss,
    ]
}

/// The frame that twenty words in memory hold, lowest address first.
pub open spec fn frame_of(w: Seq<u64>) -> RegisterState {
    RegisterState {
        r15: w[0], r14: w[1], r13: w[2], r12: w[3], r11: w[4], r10: w[5], r9: w[6],
        r8: w[7], rbp: w[8], rsi: w[9], rdi: w[10], rdx: w[11], rcx: w[12], rbx: w[13],
        rax: w[14], rip: w[15], cs: w[16], rflags: w[17], rsp: w[18], ss: w[19],
    }
}

impl Default for RegisterState {
    fn default() -> (r: RegisterState)
        ensures
            r == zero_frame(),
    {
        RegisterState {
            rax: 0, rbx: 0, rcx: 0, rdx: 0, rdi: 0, rsi: 0, rbp: 0,
            r8: 0, r9: 0, r10: 0, r11: 0, r12: 0, r13: 0, r14: 0, r15: 0,
            rip: 0, cs: 0, rflags: 0, rsp: 0, ss: 0,
        }
    }
}

impl RegisterState {
    /// The frame's words in memory order, ready to be stored on a stack.
    pub fn to_words(&self) -> (w: Vec<u64>)
        ensures
            w@ == words_of(*self),
    {
        let w: Vec<u64> = vec![
            self.r15, self.r14, self.r13, self.r12, self.r11, self.r10, self.r9,
            self.r8, self.rbp, self.rsi, self.rdi, self.rdx, self.rcx, self.rbx,
            self.rax, self.rip, self.cs, self.rflags, self.rsp, self.ss,
        ];
        proof {
            assert(w@ =~= words_of(*self));
        }
        w
    }

    /// Reads a frame from its words in memory order.
    pub fn from_words(w: &[u64]) -> (r: RegisterState)
        requires
            w@.len() == CONTEXT_WORDS,
        ensures
            r == frame_of(w@),
            words_of(r) == w@,
    {
        let r = RegisterState {
            r15: w[0], r14: w[1], r13: w[2], r12: w[3], r11: w[4], r10: w[5], r9: w[6],
            r8: w[7], rbp: w[8], rsi: w[9], rdi: w[10], rdx: w[11], rcx: w[12], rbx: w[13],
            rax: w[14], rip: w[15], cs: w[16], rflags: w[17], rsp: w[18], ss: w[19],
        };
        proof {
            assert(words_of(r) =~= w@);
        }
        r
    }
}

/// A frame written to memory and read back is the same frame, and twenty words
/// read as a frame and written back are the same words: the layout holds each
/// register in exactly one word, `r15` at the lowest address and `ss` at the
/// highest, the CPU's entry frame (`rip`, `cs`, `rflags`, `rsp`, `ss`) last.
pub proof fn lemma_frame_layout(r: RegisterState, w: Seq<u64>)
    requires
        w.len() == CONTEXT_WORDS,
    ensures
        words_of(r).len() == CONTEXT_WORDS,
        frame_of(words_of(r)) == r,
        words_of(frame_of(w)) == w,
        words_of(r)[0] == r.r15,
        words_of(r)[14] == r.rax,
        words_of(r)[15] == r.rip,
        words_of(r)[16] == r.cs,
        words_of(r)[17] == r.rflags,
        words_of(r)[18] == r.rsp,
        words_of(r)[19] == r.ss,
        CONTEXT_WORDS * 8 == INTERRUPT_CONTEXT_SIZE,
{
    assert(words_of(frame_of(w)) =~= w);
}

} // verus!
