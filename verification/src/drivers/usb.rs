//! USB: the device record, the controller interface, and the descriptor
//! and input-device layers.

use vstd::prelude::*;

pub mod descriptor;
pub mod hid;

verus! {

/// One enumerated USB device.
#[derive(Debug, Clone, Copy)]
pub struct UsbDevice {
    /// Vendor identifier.
    pub vendor_id: u16,
    /// Product identifier.
    pub product_id: u16,
    /// Device class.
    pub device_class: u8,
    /// Device subclass.
    pub device_subclass: u8,
    /// Device protocol.
    pub protocol: u8,
    /// Largest packet on endpoint zero.
    pub max_packet_size: u8,
    /// Index of the manufacturer string.
    pub manufacturer: u8,
    /// Index of the product string.
    pub product: u8,
    /// Index of the serial-number string.
    pub serial_number: u8,
}

/// The interface a USB host controller offers the kernel.
pub trait UsbController {
    /// Bring the controller up.
    fn init(&mut self) -> Result<(), &'static str>;

    /// Enumerate the connected devices.
    fn enumerate_devices(&mut self) -> Result<Vec<UsbDevice>, &'static str>;

    /// Read from one endpoint of one device.
    fn read(&mut self, device_id: u8, endpoint: u8, buffer: &mut [u8]) -> Result<
        usize,
        &'static str,
    >;

    /// Write to one endpoint of one device.
    fn write(&mut self, device_id: u8, endpoint: u8, data: &[u8]) -> Result<(), &'static str>;
}

} // verus!
