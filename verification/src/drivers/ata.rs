//! ATA disk access: one drive per I/O port base; the placeholder
//! transfers succeed without touching the buffer.

use vstd::prelude::*;

verus! {

/// One ATA drive behind a port base.
pub struct AtaDrive {
    base_port: u16,
}

impl AtaDrive {
    /// The drive's I/O port base.
    pub closed spec fn spec_base_port(self) -> u16 {
        self.base_port
    }

    /// Create a handle for the drive at `base_port`.
    pub fn new(base_port: u16) -> (r: Self)
        ensures
            r.spec_base_port() == base_port,
    {
        AtaDrive { base_port }
    }

    /// Read one sector; the placeholder reports success and leaves the
    /// buffer alone.
    pub fn read_sector(&self, lba: u32, buffer: &mut [u8]) -> (r: Result<(), &'static str>)
        ensures
            r is Ok,
            final(buffer)@ == old(buffer)@,
    {
        Result::Ok(())
    }

    /// Write one sector; the placeholder reports success.
    pub fn write_sector(&self, lba: u32, buffer: &[u8]) -> (r: Result<(), &'static str>)
        ensures
            r is Ok,
    {
        Result::Ok(())
    }
}

/// Set up the disk controller.
pub fn init() {
}

} // verus!
