//! System-call dispatch: the call numbers and the handler that routes a
//! request to its implementation.

use vstd::prelude::*;

verus! {

/// The system calls the kernel understands.
#[derive(Debug, Clone, Copy, PartialEq, Eq, Structural)]
pub enum Syscall {
    /// Write to a descriptor.
    Write,
    /// Read from a descriptor.
    Read,
    /// End the calling process.
    Exit,
    /// Open a file.
    Open,
    /// Close a descriptor.
    Close,
}

/// Dispatch a system call by number: write (1) reports the byte count on
/// standard output and fails elsewhere, read (2) is not implemented, and
/// an unknown number is rejected. The exit call (3) does not return and
/// is dispatched outside this handler.
pub fn syscall_handler(syscall_num: usize, arg1: usize, arg2: usize, arg3: usize) -> (r: isize)
    requires
        syscall_num != 3,
        arg3 <= isize::MAX,
    ensures
        syscall_num == 1 && arg1 == 1 ==> r == arg3,
        syscall_num == 1 && arg1 != 1 ==> r == -1,
        syscall_num != 1 ==> r == -1,
{
    match syscall_num {
        1 => sys_write(arg1, arg2, arg3),
        2 => sys_read(arg1, arg2, arg3),
        _ => -1,
    }
}

/// Write `count` bytes: the placeholder accepts everything aimed at
/// standard output and rejects any other descriptor.
fn sys_write(fd: usize, buf: usize, count: usize) -> (r: isize)
    requires
        count <= isize::MAX,
    ensures
        fd == 1 ==> r == count,
        fd != 1 ==> r == -1,
{
    if fd == 1 {
        count as isize
    } else {
        -1
    }
}

/// Read: not implemented yet.
fn sys_read(fd: usize, buf: usize, count: usize) -> (r: isize)
    ensures
        r == -1,
{
    -1
}

/// Set up the system-call entry point.
pub fn init() {
}

} // verus!
