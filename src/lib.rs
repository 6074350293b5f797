//! The core of a small preemptive x86-64 microkernel: the saved register
//! frame, the round-robin scheduler and task table, the rendezvous IPC
//! channel, system-call dispatch, ELF load planning and physical frame
//! allocation.

pub mod context;
pub mod ipc;
pub mod threads;
pub mod gdt;
pub mod syscalls;
pub mod elf;
pub mod memory;
pub mod cpu;
