//! FAT32 backend: a placeholder implementation of the filesystem
//! interface over fixed-size clusters.

use crate::fs::vfs::FileSystem;
use vstd::prelude::*;

verus! {

/// The FAT32 filesystem driver.
pub struct Fat32Fs {
    cluster_size: usize,
}

impl Fat32Fs {
    /// Bytes per cluster.
    pub closed spec fn spec_cluster_size(self) -> usize {
        self.cluster_size
    }

    /// Create a driver with the standard 4 KiB cluster size.
    pub fn new() -> (r: Self)
        ensures
            r.spec_cluster_size() == 4096usize,
    {
        Fat32Fs { cluster_size: 4096 }
    }
}

impl FileSystem for Fat32Fs {
    fn open(&self, path: &str) -> Result<usize, &'static str> {
        Result::Ok(0)
    }

    fn read(&self, fd: usize, buffer: &mut [u8]) -> Result<usize, &'static str> {
        Result::Ok(0)
    }

    fn write(&self, fd: usize, data: &[u8]) -> Result<usize, &'static str> {
        Result::Ok(0)
    }

    fn close(&self, fd: usize) -> Result<(), &'static str> {
        Result::Ok(())
    }
}

} // verus!
