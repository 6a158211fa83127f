//! Memory-management core of a freestanding kernel: physical-frame
//! accounting over a bitmap, four-level page-table construction and
//! translation, and two heap strategies (bump and free-list), together
//! with the thin typed layers the surrounding kernel builds on them.

pub mod ai;
pub mod allocator;
pub mod drivers;
pub mod fs;
pub mod gdt;
pub mod interrupts;
pub mod ipc;
pub mod memory;
pub mod net;
pub mod process;
pub mod syscall;
