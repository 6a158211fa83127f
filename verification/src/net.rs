//! Networking data structures: frame, packet, segment and socket
//! bookkeeping at the layer boundaries.

use vstd::prelude::*;

pub mod ethernet;
pub mod ip;
pub mod socket;
pub mod tcp;

verus! {

/// Set up the network stack.
pub fn init() {
    ethernet::init();
}

} // verus!
