//! Text-screen model: the character/colour cell grid the hardware text
//! buffer holds; a hardware adapter outside this library copies it to the
//! real memory-mapped buffer.

use vstd::prelude::*;

verus! {

/// Screen width in character cells.
pub const VGA_WIDTH: usize = 80;

/// Screen height in character cells.
pub const VGA_HEIGHT: usize = 25;

/// The screen contents: one character byte and one colour byte per cell.
pub struct TextScreen {
    cells: Vec<u8>,
}

impl TextScreen {
    /// The cell bytes, two per cell, row by row.
    pub closed spec fn view(self) -> Seq<u8> {
        self.cells@
    }

    /// The screen always holds every cell's two bytes.
    pub open spec fn wf(self) -> bool {
        self.view().len() == VGA_WIDTH * VGA_HEIGHT * 2
    }

    /// Create a cleared screen.
    pub fn new() -> (r: Self)
        ensures
            r.wf(),
            forall|k: int| 0 <= k < r.view().len() ==> r.view()[k] == 0u8,
    {
        let mut cells: Vec<u8> = Vec::new();
        let mut i: usize = 0;
        while i < VGA_WIDTH * VGA_HEIGHT * 2
            invariant
                i <= VGA_WIDTH * VGA_HEIGHT * 2,
                cells@.len() == i,
                forall|k: int| 0 <= k < i ==> cells@[k] == 0u8,
            decreases VGA_WIDTH * VGA_HEIGHT * 2 - i,
        {
            cells.push(0);
            i = i + 1;
        }
        TextScreen { cells }
    }

    /// Zero every cell.
    pub fn clear(&mut self)
        requires
            old(self).wf(),
        ensures
            final(self).wf(),
            forall|k: int| 0 <= k < final(self).view().len() ==> final(self).view()[k] == 0u8,
    {
        let n = self.cells.len();
        let mut i: usize = 0;
        while i < n
            invariant
                n == self.cells@.len(),
                i <= n,
                forall|k: int| 0 <= k < i ==> self.cells@[k] == 0u8,
            decreases n - i,
        {
            self.cells[i] = 0;
            i = i + 1;
        }
    }

    /// Put character `ch` with colour `color` at column `x`, row `y`;
    /// coordinates off the screen are silently ignored.
    pub fn write_char(&mut self, x: usize, y: usize, ch: u8, color: u8)
        requires
            old(self).wf(),
        ensures
            final(self).wf(),
            x >= VGA_WIDTH || y >= VGA_HEIGHT ==> final(self).view() == old(self).view(),
            x < VGA_WIDTH && y < VGA_HEIGHT ==> final(self).view() == old(self).view().update(
                (y * VGA_WIDTH + x) * 2,
                ch,
            ).update((y * VGA_WIDTH + x) * 2 + 1, color),
    {
        if x >= VGA_WIDTH || y >= VGA_HEIGHT {
            return ;
        }
        let offset = (y * VGA_WIDTH + x) * 2;
        proof {
            assert((y * VGA_WIDTH + x) * 2 + 1 < VGA_WIDTH * VGA_HEIGHT * 2) by (nonlinear_arith)
                requires
                    x < VGA_WIDTH,
                    y < VGA_HEIGHT,
                    VGA_WIDTH == 80,
                    VGA_HEIGHT == 25,
            ;
        }
        self.cells[offset] = ch;
        self.cells[offset + 1] = color;
    }
}

/// Set up the screen model.
pub fn init() {
}

} // verus!
