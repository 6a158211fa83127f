//! Software-defined radio: complex baseband samples and the receiver
//! device interface. The floating-point magnitude and phase computations
//! on samples live in the signal-processing layer outside this library.

use vstd::prelude::*;

pub mod rtlsdr;

verus! {

/// The interface a radio receiver offers.
pub trait SdrDevice {
    /// Bring the device up.
    fn init(&mut self) -> Result<(), &'static str>;

    /// Tune to a frequency in hertz.
    fn tune(&mut self, freq_hz: u32) -> Result<(), &'static str>;

    /// Set the sample rate in hertz.
    fn set_sample_rate(&mut self, rate: u32) -> Result<(), &'static str>;

    /// Read raw interleaved samples into `buffer`, returning the bytes
    /// read.
    fn read_samples(&mut self, buffer: &mut [u8]) -> Result<usize, &'static str>;

    /// The tuned frequency in hertz.
    fn get_frequency(&self) -> u32;

    /// The sample rate in hertz.
    fn get_sample_rate(&self) -> u32;
}

/// One complex baseband sample: in-phase and quadrature parts.
#[derive(Debug, Clone, Copy, PartialEq, Eq, Structural)]
pub struct IqSample {
    /// In-phase part.
    pub i: i16,
    /// Quadrature part.
    pub q: i16,
}

impl IqSample {
    /// Build a sample from its parts.
    pub fn new(i: i16, q: i16) -> (r: Self)
        ensures
            r.i == i,
            r.q == q,
    {
        IqSample { i, q }
    }

    /// Convert one 8-bit unsigned sample pair, centred on 127, to signed
    /// parts.
    pub fn from_u8(i: u8, q: u8) -> (r: Self)
        ensures
            r.i == i - 127,
            r.q == q - 127,
    {
        IqSample { i: (i as i16) - 127, q: (q as i16) - 127 }
    }
}

/// Set up the radio subsystem.
pub fn init() -> (r: Result<(), &'static str>)
    ensures
        r is Ok,
{
    Result::Ok(())
}

} // verus!
