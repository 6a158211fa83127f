//! PCI configuration-space bookkeeping: the device record read out of a
//! function's configuration registers, its classification, and the pure
//! encoding of configuration addresses. The port accesses that fill the
//! record live in the hardware adapter outside this library.

use vstd::prelude::*;

verus! {

/// One PCI function's configuration-space record.
#[derive(Debug, Clone, Copy)]
pub struct PciDevice {
    /// Bus number.
    pub bus: u8,
    /// Device number on the bus.
    pub device: u8,
    /// Function number of the device.
    pub function: u8,
    /// Vendor identifier.
    pub vendor_id: u16,
    /// Device identifier.
    pub device_id: u16,
    /// Class code.
    pub class_code: u8,
    /// Subclass code.
    pub subclass: u8,
    /// Programming interface.
    pub prog_if: u8,
    /// Revision identifier.
    pub revision_id: u8,
    /// Header type.
    pub header_type: u8,
    /// Base address register 0.
    pub bar0: u32,
    /// Base address register 1.
    pub bar1: u32,
    /// Base address register 2.
    pub bar2: u32,
    /// Base address register 3.
    pub bar3: u32,
    /// Base address register 4.
    pub bar4: u32,
    /// Base address register 5.
    pub bar5: u32,
    /// Interrupt line.
    pub interrupt_line: u8,
    /// Interrupt pin.
    pub interrupt_pin: u8,
}

/// PCI device class codes.
#[derive(Debug, Clone, Copy, PartialEq, Eq, Structural)]
pub enum PciClass {
    /// No class information.
    Unclassified,
    /// Mass-storage controller.
    MassStorage,
    /// Network controller.
    Network,
    /// Display controller.
    Display,
    /// Multimedia device.
    Multimedia,
    /// Memory controller.
    Memory,
    /// Bridge device.
    Bridge,
    /// Communication controller.
    Communication,
    /// System peripheral.
    SystemPeripheral,
    /// Input device.
    InputDevice,
    /// Docking station.
    DockingStation,
    /// Processor.
    Processor,
    /// Serial-bus controller; USB controllers live here.
    SerialBus,
    /// Wireless controller.
    Wireless,
    /// Intelligent I/O controller.
    IntelligentIO,
    /// Satellite communication controller.
    Satellite,
    /// Encryption controller.
    Encryption,
    /// Signal-processing controller.
    SignalProcessing,
}

/// Kinds of USB host controller, told apart by programming interface.
#[derive(Debug, Clone, Copy, PartialEq, Eq, Structural)]
pub enum UsbControllerType {
    /// USB 1.0 universal host controller.
    Uhci,
    /// USB 1.1 open host controller.
    Ohci,
    /// USB 2.0 enhanced host controller.
    Ehci,
    /// USB 3.x extensible host controller.
    Xhci,
    /// USB 4 controller.
    Usb4,
    /// A USB device rather than a host.
    UsbDevice,
}

impl PciDevice {
    /// Whether this function is a USB controller: serial-bus class,
    /// USB subclass.
    pub fn is_usb_controller(&self) -> (r: bool)
        ensures
            r == (self.class_code == 0x0Cu8 && self.subclass == 0x03u8),
    {
        self.class_code == 0x0C && self.subclass == 0x03
    }

    /// Which kind of USB controller this function is, by programming
    /// interface; `None` for a non-USB function or an unknown interface.
    pub fn usb_controller_type(&self) -> (r: Option<UsbControllerType>)
        ensures
            !(self.class_code == 0x0Cu8 && self.subclass == 0x03u8) ==> r is None,
            self.class_code == 0x0Cu8 && self.subclass == 0x03u8 ==> r == (match self.prog_if {
                0x00u8 => Option::Some(UsbControllerType::Uhci),
                0x10u8 => Option::Some(UsbControllerType::Ohci),
                0x20u8 => Option::Some(UsbControllerType::Ehci),
                0x30u8 => Option::Some(UsbControllerType::Xhci),
                0x40u8 => Option::Some(UsbControllerType::Usb4),
                0xFEu8 => Option::Some(UsbControllerType::UsbDevice),
                _ => Option::None,
            }),
    {
        if !self.is_usb_controller() {
            return Option::None;
        }
        match self.prog_if {
            0x00 => Option::Some(UsbControllerType::Uhci),
            0x10 => Option::Some(UsbControllerType::Ohci),
            0x20 => Option::Some(UsbControllerType::Ehci),
            0x30 => Option::Some(UsbControllerType::Xhci),
            0x40 => Option::Some(UsbControllerType::Usb4),
            0xFE => Option::Some(UsbControllerType::UsbDevice),
            _ => Option::None,
        }
    }

    /// A human-readable name for a few known controllers.
    pub fn device_name(&self) -> (r: &'static str)
        ensures
            (self.vendor_id == 0x8086u16 && (self.device_id == 0x9D2Fu16 || self.device_id
                == 0xA12Fu16)) ==> r@ == "Intel USB 3.0 XHCI Controller"@,
            self.vendor_id == 0x1022u16 && self.device_id == 0x149Cu16 ==> r@
                == "AMD USB 3.1 XHCI Controller"@,
            self.vendor_id == 0x1B21u16 && self.device_id == 0x1142u16 ==> r@
                == "ASMedia USB 3.0 XHCI Controller"@,
    {
        if self.vendor_id == 0x8086 && (self.device_id == 0x9D2F || self.device_id == 0xA12F) {
            "Intel USB 3.0 XHCI Controller"
        } else if self.vendor_id == 0x1022 && self.device_id == 0x149C {
            "AMD USB 3.1 XHCI Controller"
        } else if self.vendor_id == 0x1B21 && self.device_id == 0x1142 {
            "ASMedia USB 3.0 XHCI Controller"
        } else {
            "Unknown PCI Device"
        }
    }
}

/// Encode a configuration-space address: the enable bit, then bus, device,
/// function and the register offset rounded down to a dword.
pub fn pci_address(bus: u8, device: u8, function: u8, offset: u8) -> (r: u32)
    ensures
        r == (0x8000_0000u32 | ((bus as u32) << 16) | ((device as u32) << 11) | ((
        function as u32) << 8) | ((offset as u32) & 0xFC)),
{
    let bus32 = bus as u32;
    let device32 = device as u32;
    let function32 = function as u32;
    let offset32 = offset as u32;
    0x8000_0000u32 | (bus32 << 16) | (device32 << 11) | (function32 << 8) | (offset32 & 0xFC)
}

/// Extract the byte at `offset & 3` of a configuration dword.
pub fn config_byte_of(value: u32, offset: u8) -> (r: u8)
    ensures
        r == ((value >> (((offset as u32) & 3) * 8)) & 0xFF) as u8,
    {
    let masked = (offset as u32) & 3;
    proof {
        assert(((offset as u32) & 3) < 4) by (bit_vector);
    }
    let sh = masked * 8;
    ((value >> sh) & 0xFF) as u8
}

/// Extract the 16-bit word at `offset & 2` of a configuration dword.
pub fn config_word_of(value: u32, offset: u8) -> (r: u16)
    ensures
        r == ((value >> (((offset as u32) & 2) * 8)) & 0xFFFF) as u16,
{
    let masked = (offset as u32) & 2;
    proof {
        assert(((offset as u32) & 2) < 4) by (bit_vector);
    }
    let sh = masked * 8;
    ((value >> sh) & 0xFFFF) as u16
}

} // verus!
