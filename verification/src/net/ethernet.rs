//! Ethernet framing: destination and source hardware addresses, an
//! ethertype, and a bounded payload.

use vstd::prelude::*;

verus! {

/// Largest payload an Ethernet frame carries.
pub const ETHERNET_MTU: usize = 1500;

/// One Ethernet frame.
pub struct EthernetFrame {
    dest_mac: [u8; 6],
    src_mac: [u8; 6],
    ethertype: u16,
    payload: Vec<u8>,
}

impl EthernetFrame {
    /// The frame's ethertype.
    pub closed spec fn spec_ethertype(self) -> u16 {
        self.ethertype
    }

    /// The frame's payload bytes.
    pub closed spec fn spec_payload(self) -> Seq<u8> {
        self.payload@
    }

    /// The payload never exceeds the MTU.
    pub open spec fn wf(self) -> bool {
        self.spec_payload().len() <= ETHERNET_MTU
    }

    /// Create an empty frame carrying IPv4.
    pub fn new() -> (r: Self)
        ensures
            r.wf(),
            r.spec_ethertype() == 0x0800u16,
            r.spec_payload().len() == 0,
    {
        EthernetFrame { dest_mac: [0; 6], src_mac: [0; 6], ethertype: 0x0800, payload: Vec::new() }
    }

    /// Hand the frame to the link layer; the placeholder transport always
    /// accepts it.
    pub fn send(&self) -> (r: Result<(), &'static str>)
        ensures
            r is Ok,
    {
        Result::Ok(())
    }
}

/// Set up the link layer.
pub fn init() {
}

} // verus!
