//! Virtual filesystem: the node tree and the interface every concrete
//! filesystem implements.

use vstd::prelude::*;

verus! {

/// A node of the virtual filesystem tree.
pub enum VfsNode {
    /// A regular file with its size.
    File { name: String, size: usize },
    /// A directory with its children.
    Directory { name: String, children: Vec<VfsNode> },
}

/// The interface a concrete filesystem offers the kernel.
pub trait FileSystem {
    /// Open the file at `path`, returning a descriptor.
    fn open(&self, path: &str) -> Result<usize, &'static str>;

    /// Read from descriptor `fd` into `buffer`, returning the bytes read.
    fn read(&self, fd: usize, buffer: &mut [u8]) -> Result<usize, &'static str>;

    /// Write `data` to descriptor `fd`, returning the bytes written.
    fn write(&self, fd: usize, data: &[u8]) -> Result<usize, &'static str>;

    /// Close descriptor `fd`.
    fn close(&self, fd: usize) -> Result<(), &'static str>;
}

/// Set up the virtual filesystem.
pub fn init() {
}

} // verus!
