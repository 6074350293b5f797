//! Segment selectors and interrupt-stack slots of the descriptor tables.

use vstd::prelude::*;

verus! {

/// Interrupt-stack slot used by the double-fault handler.
pub const DOUBLE_FAULT_IST_INDEX: u16 = 0;
/// Interrupt-stack slot used by the page-fault handler.
pub const PAGE_FAULT_IST_INDEX: u16 = 0;
/// Interrupt-stack slot used by the general-protection handler.
pub const GENERAL_PROTECTION_FAULT_IST_INDEX: u16 = 0;
/// Interrupt-stack slot used by the timer; the scheduler rewrites it on every switch.
pub const TIMER_INTERRUPT_INDEX: u16 = 1;
/// Slot into which the system-call entry spills the user stack pointer.
pub const SYSCALL_TEMP_INDEX: u16 = 2;

/// The selectors of the descriptor table that tasks run under.
#[derive(Clone, Copy, Debug, PartialEq, Eq, Structural)]
pub struct Selectors {
    pub kernel_code: u16,
    pub kernel_data: u16,
    pub user_code: u16,
    pub user_data: u16,
}

/// Code and data selectors for ring 0.
pub fn get_kernel_segments(s: &Selectors) -> (r: (u16, u16))
    ensures
        r == (s.kernel_code, s.kernel_data),
{
    (s.kernel_code, s.kernel_data)
}

/// Code and data selectors for ring 3.
pub fn get_user_segments(s: &Selectors) -> (r: (u16, u16))
    ensures
        r == (s.user_code, s.user_data),
{
    (s.user_code, s.user_data)
}

/// Offset, within the task-state segment, of interrupt-stack slot `index`.
pub open spec fn ist_offset(index: u16) -> int {
    0x24 + 8 * index
}

/// Offset of interrupt-stack slot `index` in the task-state segment, which the
/// system-call entry reads through the `gs` base.
pub fn tss_slot_offset(index: u16) -> (r: u64)
    requires
        index < 7,
    ensures
        r == ist_offset(index),
{
    0x24 + 8 * (index as u64)
}

} // verus!
