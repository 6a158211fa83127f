//! RTL2832U receiver driver: register bookkeeping over a placeholder
//! control transport, with range-checked tuning and sample-rate setup.

use crate::drivers::sdr::SdrDevice;
use crate::drivers::usb::UsbDevice;
use vstd::prelude::*;

verus! {

/// Lowest tunable frequency in hertz.
pub const MIN_FREQ_HZ: u32 = 24_000_000;

/// Highest tunable frequency in hertz.
pub const MAX_FREQ_HZ: u32 = 1_766_000_000;

/// Lowest usable sample rate in hertz.
pub const MIN_SAMPLE_RATE: u32 = 225_000;

/// Highest usable sample rate in hertz.
pub const MAX_SAMPLE_RATE: u32 = 3_200_000;

/// The RTL2832U-based receiver.
pub struct RtlSdr {
    usb_device: Option<UsbDevice>,
    frequency: u32,
    sample_rate: u32,
    gain: u8,
    buffer: Vec<u8>,
}

impl RtlSdr {
    /// Whether a USB device is attached.
    pub closed spec fn spec_attached(self) -> bool {
        self.usb_device is Some
    }

    /// The tuned frequency.
    pub closed spec fn spec_frequency(self) -> u32 {
        self.frequency
    }

    /// The sample rate.
    pub closed spec fn spec_sample_rate(self) -> u32 {
        self.sample_rate
    }

    /// Create an unattached receiver with the default tuning.
    pub fn new() -> (r: Self)
        ensures
            !r.spec_attached(),
            r.spec_frequency() == 100_000_000u32,
            r.spec_sample_rate() == 2_048_000u32,
    {
        RtlSdr {
            usb_device: Option::None,
            frequency: 100_000_000,
            sample_rate: 2_048_000,
            gain: 0,
            buffer: Vec::new(),
        }
    }

    /// Attach a USB device after checking its vendor.
    pub fn attach(&mut self, device: UsbDevice) -> (r: Result<(), &'static str>)
        ensures
            device.vendor_id != 0x0bdau16 ==> r is Err && *final(self) == *old(self),
            device.vendor_id == 0x0bdau16 ==> r is Ok && final(self).spec_attached() && final(self).spec_frequency() == old(self).spec_frequency() && final(self).spec_sample_rate()
                == old(self).spec_sample_rate(),
    {
        if device.vendor_id != 0x0bda {
            return Result::Err("Not an RTL-SDR device");
        }
        self.usb_device = Option::Some(device);
        Result::Ok(())
    }

    /// Issue a control command; the placeholder transport accepts
    /// everything.
    fn control_transfer(
        &mut self,
        request_type: u8,
        request: u8,
        value: u16,
        index: u16,
        data: &[u8],
    ) -> (r: Result<(), &'static str>)
        ensures
            r is Ok,
            *final(self) == *old(self),
    {
        Result::Ok(())
    }

    /// Write one device register through the control transport.
    fn write_reg(&mut self, block: u8, addr: u16, value: u8) -> (r: Result<(), &'static str>)
        ensures
            r is Ok,
            *final(self) == *old(self),
    {
        let data = [value];
        self.control_transfer(0x40, 0, addr, block as u16, data.as_slice())
    }
}

impl SdrDevice for RtlSdr {
    /// Bring the receiver up: requires an attached device, then programs
    /// the demodulator and tuner with the stored defaults.
    fn init(&mut self) -> Result<(), &'static str> {
        if self.usb_device.is_none() {
            return Result::Err("No USB device attached");
        }
        match self.write_reg(0x01, 0x01, 0x14) {
            Result::Ok(u) => {},
            Result::Err(m) => {
                return Result::Err(m);
            },
        }
        match self.write_reg(0x01, 0x01, 0x10) {
            Result::Ok(u) => {},
            Result::Err(m) => {
                return Result::Err(m);
            },
        }
        Result::Ok(())
    }

    /// Tune: reject a frequency outside the receiver's range, otherwise
    /// store it.
    fn tune(&mut self, freq_hz: u32) -> Result<(), &'static str> {
        if freq_hz < MIN_FREQ_HZ || freq_hz > MAX_FREQ_HZ {
            return Result::Err("Frequency out of range");
        }
        self.frequency = freq_hz;
        Result::Ok(())
    }

    /// Set the sample rate: reject one outside the usable range,
    /// otherwise store it.
    fn set_sample_rate(&mut self, rate: u32) -> Result<(), &'static str> {
        if rate < MIN_SAMPLE_RATE || rate > MAX_SAMPLE_RATE {
            return Result::Err("Sample rate out of range");
        }
        self.sample_rate = rate;
        Result::Ok(())
    }

    /// Read samples; the placeholder transport reports no data when a
    /// device is attached.
    fn read_samples(&mut self, buffer: &mut [u8]) -> Result<usize, &'static str> {
        if self.usb_device.is_none() {
            return Result::Err("No device attached");
        }
        Result::Ok(0)
    }

    /// The tuned frequency.
    fn get_frequency(&self) -> u32 {
        self.frequency
    }

    /// The sample rate.
    fn get_sample_rate(&self) -> u32 {
        self.sample_rate
    }
}

} // verus!
