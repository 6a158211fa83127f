//! USB descriptor records and the bit fields their consumers read.

use vstd::prelude::*;

verus! {

/// The device descriptor (18 bytes on the wire).
#[derive(Debug, Clone, Copy)]
pub struct DeviceDescriptor {
    /// Descriptor length.
    pub length: u8,
    /// Descriptor type.
    pub descriptor_type: u8,
    /// Supported USB version, binary-coded decimal.
    pub usb_version: u16,
    /// Device class.
    pub device_class: u8,
    /// Device subclass.
    pub device_subclass: u8,
    /// Device protocol.
    pub device_protocol: u8,
    /// Largest packet on endpoint zero.
    pub max_packet_size0: u8,
    /// Vendor identifier.
    pub vendor_id: u16,
    /// Product identifier.
    pub product_id: u16,
    /// Device release, binary-coded decimal.
    pub device_release: u16,
    /// Index of the manufacturer string.
    pub manufacturer_string: u8,
    /// Index of the product string.
    pub product_string: u8,
    /// Index of the serial-number string.
    pub serial_number_string: u8,
    /// Number of configurations.
    pub num_configurations: u8,
}

/// The configuration descriptor (9 bytes on the wire).
#[derive(Debug, Clone, Copy)]
pub struct ConfigurationDescriptor {
    /// Descriptor length.
    pub length: u8,
    /// Descriptor type.
    pub descriptor_type: u8,
    /// Total length of the configuration hierarchy.
    pub total_length: u16,
    /// Number of interfaces.
    pub num_interfaces: u8,
    /// Value used to select this configuration.
    pub configuration_value: u8,
    /// Index of the configuration string.
    pub configuration_string: u8,
    /// Attribute bits.
    pub attributes: u8,
    /// Largest bus power draw, in 2 mA units.
    pub max_power: u8,
}

/// The interface descriptor (9 bytes on the wire).
#[derive(Debug, Clone, Copy)]
pub struct InterfaceDescriptor {
    /// Descriptor length.
    pub length: u8,
    /// Descriptor type.
    pub descriptor_type: u8,
    /// Interface number.
    pub interface_number: u8,
    /// Alternate setting.
    pub alternate_setting: u8,
    /// Number of endpoints.
    pub num_endpoints: u8,
    /// Interface class.
    pub interface_class: u8,
    /// Interface subclass.
    pub interface_subclass: u8,
    /// Interface protocol.
    pub interface_protocol: u8,
    /// Index of the interface string.
    pub interface_string: u8,
}

/// The endpoint descriptor (7 bytes on the wire).
#[derive(Debug, Clone, Copy)]
pub struct EndpointDescriptor {
    /// Descriptor length.
    pub length: u8,
    /// Descriptor type.
    pub descriptor_type: u8,
    /// Endpoint address: number in bits 0..3, direction in bit 7.
    pub endpoint_address: u8,
    /// Attribute bits: transfer type in bits 0..1.
    pub attributes: u8,
    /// Largest packet size.
    pub max_packet_size: u16,
    /// Polling interval.
    pub interval: u8,
}

/// How an endpoint transfers data, bits 0..1 of its attributes.
#[derive(Debug, Clone, Copy, PartialEq, Eq, Structural)]
pub enum EndpointTransferType {
    /// Control transfers.
    Control,
    /// Isochronous transfers.
    Isochronous,
    /// Bulk transfers.
    Bulk,
    /// Interrupt transfers.
    Interrupt,
}

/// The descriptor types that appear on the wire.
#[derive(Debug, Clone, Copy, PartialEq, Eq, Structural)]
pub enum DescriptorType {
    /// Device descriptor.
    Device,
    /// Configuration descriptor.
    Configuration,
    /// String descriptor.
    String,
    /// Interface descriptor.
    Interface,
    /// Endpoint descriptor.
    Endpoint,
    /// Device qualifier.
    DeviceQualifier,
    /// Other-speed configuration.
    OtherSpeedConfiguration,
    /// Interface power.
    InterfacePower,
    /// Human-interface-device descriptor.
    Hid,
    /// Human-interface-device report.
    HidReport,
    /// Human-interface-device physical descriptor.
    HidPhysical,
}

/// The device classes that appear in descriptors.
#[derive(Debug, Clone, Copy, PartialEq, Eq, Structural)]
pub enum DeviceClass {
    /// Class given per interface.
    PerInterface,
    /// Audio device.
    Audio,
    /// Communications device.
    Communications,
    /// Human-interface device.
    Hid,
    /// Physical device.
    Physical,
    /// Imaging device.
    Image,
    /// Printer.
    Printer,
    /// Mass storage.
    MassStorage,
    /// Hub.
    Hub,
    /// Communications data.
    CdcData,
    /// Smart card.
    SmartCard,
    /// Content security.
    ContentSecurity,
    /// Video device.
    Video,
    /// Personal healthcare.
    PersonalHealthcare,
    /// Audio/video device.
    AudioVideo,
    /// Diagnostic device.
    Diagnostic,
    /// Wireless controller.
    Wireless,
    /// Miscellaneous.
    Miscellaneous,
    /// Application specific.
    ApplicationSpecific,
    /// Vendor specific.
    VendorSpecific,
}

impl EndpointDescriptor {
    /// The endpoint number, bits 0..3 of the address.
    pub fn endpoint_number(&self) -> (r: u8)
        ensures
            r == self.endpoint_address & 0x0F,
    {
        self.endpoint_address & 0x0F
    }

    /// Whether the endpoint carries data device-to-host (bit 7).
    pub fn is_in(&self) -> (r: bool)
        ensures
            r == (self.endpoint_address & 0x80 != 0),
    {
        (self.endpoint_address & 0x80) != 0
    }

    /// The transfer type, bits 0..1 of the attributes.
    pub fn transfer_type(&self) -> (r: EndpointTransferType)
        ensures
            r == (match self.attributes & 0x03 {
                0u8 => EndpointTransferType::Control,
                1u8 => EndpointTransferType::Isochronous,
                2u8 => EndpointTransferType::Bulk,
                _ => EndpointTransferType::Interrupt,
            }),
    {
        let a = self.attributes;
        let bits = a & 0x03;
        proof {
            assert(a & 0x03 < 4) by (bit_vector);
        }
        match bits {
            0 => EndpointTransferType::Control,
            1 => EndpointTransferType::Isochronous,
            2 => EndpointTransferType::Bulk,
            _ => EndpointTransferType::Interrupt,
        }
    }
}

} // verus!
