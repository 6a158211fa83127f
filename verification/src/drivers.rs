//! Device-driver layer: the keyboard buffer, the text screen model, disk
//! access, bus enumeration types and the radio front end.

use vstd::prelude::*;

pub mod ata;
pub mod keyboard;
pub mod pci;
pub mod sdr;
pub mod usb;
pub mod vga;

verus! {

/// Set up the keyboard, screen and disk drivers.
pub fn init_all() {
    keyboard::init();
    ata::init();
}

} // verus!
