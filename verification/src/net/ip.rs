//! IP packet bookkeeping: version, endpoints, protocol and a bounded
//! payload.

use vstd::prelude::*;

verus! {

/// Largest payload an IP packet carries here.
pub const IP_MTU: usize = 1480;

/// One IP packet.
pub struct IpPacket {
    version: u8,
    src_addr: [u8; 4],
    dest_addr: [u8; 4],
    protocol: u8,
    payload: Vec<u8>,
}

impl IpPacket {
    /// The IP version field.
    pub closed spec fn spec_version(self) -> u8 {
        self.version
    }

    /// The transport protocol number.
    pub closed spec fn spec_protocol(self) -> u8 {
        self.protocol
    }

    /// The payload bytes.
    pub closed spec fn spec_payload(self) -> Seq<u8> {
        self.payload@
    }

    /// Create an empty IPv4 packet carrying TCP between `src` and `dest`.
    pub fn new(src: [u8; 4], dest: [u8; 4]) -> (r: Self)
        ensures
            r.spec_version() == 4u8,
            r.spec_protocol() == 6u8,
            r.spec_payload().len() == 0,
    {
        IpPacket { version: 4, src_addr: src, dest_addr: dest, protocol: 6, payload: Vec::new() }
    }
}

} // verus!
