//! USB human-interface devices: boot-protocol keyboard reports and their
//! scancode-to-character translation, and the boot-protocol mouse.

use crate::drivers::usb::UsbDevice;
use vstd::prelude::*;
use vstd::slice::slice_subrange;

verus! {

/// Human-interface-device report directions.
#[derive(Debug, Clone, Copy, PartialEq, Eq, Structural)]
pub enum HidReportType {
    /// Device-to-host report.
    Input,
    /// Host-to-device report.
    Output,
    /// Bidirectional feature report.
    Feature,
}

/// A boot-protocol USB keyboard: an 8-byte report buffer, the active
/// modifiers, and the keys of the previous report.
pub struct UsbKeyboard {
    device: UsbDevice,
    endpoint: u8,
    buffer: Vec<u8>,
    modifiers: u8,
    last_keys: Vec<u8>,
}

/// What a scancode translates to under the boot-protocol keymap with the
/// given modifier byte: letters and digits shift with either shift key,
/// a handful of control characters map directly, everything else is
/// unmapped.
pub open spec fn spec_scancode_char(modifiers: u8, scancode: u8) -> Option<char> {
    let shift = modifiers & 0x22 != 0;
    if 0x04 <= scancode <= 0x1D {
        if shift {
            Option::Some((((scancode - 0x04) + 65) as u8) as char)
        } else {
            Option::Some((((scancode - 0x04) + 97) as u8) as char)
        }
    } else if 0x1E <= scancode <= 0x27 {
        if shift {
            Option::Some(
                match scancode {
                    0x1Eu8 => '!',
                    0x1Fu8 => '@',
                    0x20u8 => '#',
                    0x21u8 => '$',
                    0x22u8 => '%',
                    0x23u8 => '^',
                    0x24u8 => '&',
                    0x25u8 => '*',
                    0x26u8 => '(',
                    _ => ')',
                },
            )
        } else if scancode == 0x27 {
            Option::Some('0')
        } else {
            Option::Some((((scancode - 0x1E) + 49) as u8) as char)
        }
    } else {
        match scancode {
            0x28u8 => Option::Some('\n'),
            0x29u8 => Option::Some('\x1b'),
            0x2Au8 => Option::Some('\x08'),
            0x2Bu8 => Option::Some('\t'),
            0x2Cu8 => Option::Some(' '),
            _ => Option::None,
        }
    }
}

/// The characters a report decodes to, scanning key bytes `2..upto` of
/// `buffer`: each nonzero scancode that is not in `last` (the previous
/// report's keys) and has a translation under the report's modifier byte
/// contributes its character, in buffer order.
pub open spec fn spec_report_chars(buffer: Seq<u8>, last: Seq<u8>, upto: int) -> Seq<char>
    decreases upto,
{
    if upto <= 2 {
        Seq::empty()
    } else {
        let prev = spec_report_chars(buffer, last, upto - 1);
        let sc = buffer[upto - 1];
        if sc != 0 && (forall|t: int| 0 <= t < last.len() ==> last[t] != sc)
            && spec_scancode_char(buffer[0], sc) is Some {
            prev.push(spec_scancode_char(buffer[0], sc)->0)
        } else {
            prev
        }
    }
}

impl UsbKeyboard {
    /// The 8-byte report buffer.
    pub closed spec fn spec_buffer(self) -> Seq<u8> {
        self.buffer@
    }

    /// The modifier byte of the last parsed report.
    pub closed spec fn spec_modifiers(self) -> u8 {
        self.modifiers
    }

    /// The key bytes of the previous report.
    pub closed spec fn spec_last_keys(self) -> Seq<u8> {
        self.last_keys@
    }

    /// The report buffer holds 8 bytes and the key history 6.
    pub open spec fn wf(self) -> bool {
        self.spec_buffer().len() == 8 && self.spec_last_keys().len() == 6
    }

    /// Create a keyboard on one interrupt endpoint.
    pub fn new(device: UsbDevice, endpoint: u8) -> (r: Self)
        ensures
            r.wf(),
            r.spec_modifiers() == 0u8,
    {
        let mut buffer: Vec<u8> = Vec::new();
        let mut i: usize = 0;
        while i < 8
            invariant
                i <= 8,
                buffer@.len() == i,
            decreases 8 - i,
        {
            buffer.push(0);
            i = i + 1;
        }
        let mut last_keys: Vec<u8> = Vec::new();
        let mut j: usize = 0;
        while j < 6
            invariant
                j <= 6,
                last_keys@.len() == j,
            decreases 6 - j,
        {
            last_keys.push(0);
            j = j + 1;
        }
        UsbKeyboard { device, endpoint, buffer, modifiers: 0, last_keys }
    }

    /// Fetch the next 8-byte report; the placeholder transport leaves the
    /// buffer alone and reports success.
    pub fn read_report(&mut self) -> (r: Result<(), &'static str>)
        ensures
            r is Ok,
            *final(self) == *old(self),
    {
        Result::Ok(())
    }

    /// The keys of the current report (bytes 2..8 of the buffer).
    pub fn get_pressed_keys(&self) -> (r: &[u8])
        requires
            self.wf(),
        ensures
            r@ == self.spec_buffer().subrange(2, 8),
    {
        let s = self.buffer.as_slice();
        let r = slice_subrange(s, 2, 8);
        r
    }

    /// Translate a scancode under the current modifiers.
    pub fn scancode_to_ascii(&self, scancode: u8) -> (r: Option<char>)
        ensures
            r == spec_scancode_char(self.spec_modifiers(), scancode),
    {
        let shift_pressed = (self.modifiers & 0x22) != 0;
        if 0x04 <= scancode && scancode <= 0x1D {
            let base: u8 = if shift_pressed {
                65
            } else {
                97
            };
            Option::Some(((scancode - 0x04) + base) as char)
        } else if 0x1E <= scancode && scancode <= 0x27 {
            if shift_pressed {
                Option::Some(
                    match scancode {
                        0x1E => '!',
                        0x1F => '@',
                        0x20 => '#',
                        0x21 => '$',
                        0x22 => '%',
                        0x23 => '^',
                        0x24 => '&',
                        0x25 => '*',
                        0x26 => '(',
                        _ => ')',
                    },
                )
            } else if scancode == 0x27 {
                Option::Some('0')
            } else {
                Option::Some(((scancode - 0x1E) + 49) as char)
            }
        } else {
            match scancode {
                0x28 => Option::Some('\n'),
                0x29 => Option::Some('\x1b'),
                0x2A => Option::Some('\x08'),
                0x2B => Option::Some('\t'),
                0x2C => Option::Some(' '),
                _ => Option::None,
            }
        }
    }

    /// Poll for newly pressed keys: parse the current report, translate
    /// every key that was not already down, and remember the report's
    /// keys.
    pub fn poll(&mut self) -> (r: Vec<char>)
        requires
            old(self).wf(),
        ensures
            final(self).wf(),
            final(self).spec_buffer() == old(self).spec_buffer(),
            final(self).spec_modifiers() == old(self).spec_buffer()[0],
            final(self).spec_last_keys() == old(self).spec_buffer().subrange(2, 8),
            r@ == spec_report_chars(old(self).spec_buffer(), old(self).spec_last_keys(), 8),
    {
        let mut chars: Vec<char> = Vec::new();
        match self.read_report() {
            Result::Ok(u) => {},
            Result::Err(m) => {},
        }
        self.modifiers = self.buffer[0];
        let ghost buf = self.buffer@;
        let ghost last = self.last_keys@;
        let mut i: usize = 2;
        while i < 8
            invariant
                self.wf(),
                2 <= i <= 8,
                buf == self.buffer@,
                last == self.last_keys@,
                self.spec_modifiers() == buf[0],
                chars@ == spec_report_chars(buf, last, i as int),
            decreases 8 - i,
        {
            let scancode = self.buffer[i];
            if scancode != 0 {
                let mut is_new = true;
                let mut j: usize = 0;
                while j < 6
                    invariant
                        self.wf(),
                        last == self.last_keys@,
                        j <= 6,
                        is_new == (forall|t: int| 0 <= t < j ==> last[t] != scancode),
                    decreases 6 - j,
                {
                    if self.last_keys[j] == scancode {
                        is_new = false;
                    }
                    j = j + 1;
                }
                if is_new {
                    match self.scancode_to_ascii(scancode) {
                        Option::Some(ch) => {
                            chars.push(ch);
                        },
                        Option::None => {},
                    }
                }
            }
            i = i + 1;
        }
        let mut k: usize = 0;
        while k < 6
            invariant
                self.spec_buffer().len() == 8,
                self.last_keys@.len() == 6,
                k <= 6,
                buf == self.buffer@,
                self.spec_modifiers() == buf[0],
                forall|t: int| 0 <= t < k ==> self.last_keys@[t] == buf[t + 2],
            decreases 6 - k,
        {
            let b = self.buffer[k + 2];
            self.last_keys[k] = b;
            k = k + 1;
        }
        proof {
            assert(self.last_keys@ =~= buf.subrange(2, 8));
        }
        chars
    }
}

/// A boot-protocol USB mouse: a report buffer and the accumulated
/// position and button state.
pub struct UsbMouse {
    /// The underlying USB device.
    pub device: UsbDevice,
    /// The interrupt endpoint polled for reports.
    pub endpoint: u8,
    /// The report buffer.
    pub buffer: Vec<u8>,
    /// Accumulated horizontal position.
    pub x: i16,
    /// Accumulated vertical position.
    pub y: i16,
    /// Button state of the last report.
    pub buttons: u8,
}

impl UsbMouse {
    /// The report buffer.
    pub closed spec fn spec_buffer(self) -> Seq<u8> {
        self.buffer@
    }

    /// The report buffer holds 4 bytes.
    pub open spec fn wf(self) -> bool {
        self.spec_buffer().len() == 4
    }

    /// Create a mouse on one interrupt endpoint.
    pub fn new(device: UsbDevice, endpoint: u8) -> (r: Self)
        ensures
            r.wf(),
            r.x == 0i16 && r.y == 0i16 && r.buttons == 0u8,
    {
        let mut buffer: Vec<u8> = Vec::new();
        let mut i: usize = 0;
        while i < 4
            invariant
                i <= 4,
                buffer@.len() == i,
            decreases 4 - i,
        {
            buffer.push(0);
            i = i + 1;
        }
        UsbMouse { device, endpoint, buffer, x: 0, y: 0, buttons: 0 }
    }

    /// Parse the current report: take the button byte and accumulate the
    /// signed movement deltas, saturating at the position bounds.
    pub fn poll(&mut self) -> (r: Result<(), &'static str>)
        requires
            old(self).wf(),
        ensures
            r is Ok,
            final(self).wf(),
            final(self).buttons == old(self).spec_buffer()[0],
    {
        self.buttons = self.buffer[0];
        let dx = self.buffer[1] as i8;
        let dy = self.buffer[2] as i8;
        self.x = saturating_add_i16(self.x, dx as i16);
        self.y = saturating_add_i16(self.y, dy as i16);
        Result::Ok(())
    }
}

/// Add two 16-bit values, clamping at the type's bounds.
fn saturating_add_i16(a: i16, b: i16) -> (r: i16)
    ensures
        a + b > i16::MAX ==> r == i16::MAX,
        a + b < i16::MIN ==> r == i16::MIN,
        i16::MIN <= a + b <= i16::MAX ==> r == a + b,
{
    if b > 0 && a > i16::MAX - b {
        i16::MAX
    } else if b < 0 && a < i16::MIN - b {
        i16::MIN
    } else {
        a + b
    }
}

} // verus!
