//! Interrupt handling: the interrupt descriptor table and its handler
//! encoding.

use vstd::prelude::*;

pub mod idt;

verus! {

/// Set up the interrupt system.
pub fn init() {
}

} // verus!
