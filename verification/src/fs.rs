//! Filesystem layer: the virtual-filesystem interface and its placeholder
//! FAT32 backend.

use vstd::prelude::*;

pub mod fat32;
pub mod vfs;

verus! {

/// Set up the filesystem layer.
pub fn init() {
    vfs::init();
}

} // verus!
