//! TCP segment bookkeeping: ports, sequence numbers, flags and a bounded
//! payload.

use vstd::prelude::*;

verus! {

/// One TCP segment.
pub struct TcpSegment {
    src_port: u16,
    dest_port: u16,
    seq_num: u32,
    ack_num: u32,
    flags: u8,
    window: u16,
    data: Vec<u8>,
}

impl TcpSegment {
    /// The source port.
    pub closed spec fn spec_src_port(self) -> u16 {
        self.src_port
    }

    /// The destination port.
    pub closed spec fn spec_dest_port(self) -> u16 {
        self.dest_port
    }

    /// The control flags.
    pub closed spec fn spec_flags(self) -> u8 {
        self.flags
    }

    /// Create an empty segment between two ports with the default window.
    pub fn new(src_port: u16, dest_port: u16) -> (r: Self)
        ensures
            r.spec_src_port() == src_port,
            r.spec_dest_port() == dest_port,
            r.spec_flags() == 0u8,
    {
        TcpSegment {
            src_port,
            dest_port,
            seq_num: 0,
            ack_num: 0,
            flags: 0,
            window: 8192,
            data: Vec::new(),
        }
    }

    /// Begin a connection: raise the SYN flag.
    pub fn connect(&mut self) -> (r: Result<(), &'static str>)
        ensures
            r is Ok,
            final(self).spec_flags() == 0x02u8,
            final(self).spec_src_port() == old(self).spec_src_port(),
            final(self).spec_dest_port() == old(self).spec_dest_port(),
    {
        self.flags = 0x02;
        Result::Ok(())
    }
}

} // verus!
