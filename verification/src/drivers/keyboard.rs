//! PS/2 keyboard buffering: a fixed ring of scancodes with a read and a
//! write cursor.

use vstd::prelude::*;

verus! {

/// Number of slots in the scancode ring.
pub const KEY_BUFFER_SIZE: usize = 256;

/// The keyboard's scancode ring buffer.
pub struct Keyboard {
    buffer: Vec<u8>,
    read_pos: usize,
    write_pos: usize,
}

impl Keyboard {
    /// The buffered scancodes by slot.
    pub closed spec fn view(self) -> Seq<u8> {
        self.buffer@
    }

    /// The next slot to read from.
    pub closed spec fn spec_read_pos(self) -> usize {
        self.read_pos
    }

    /// The next slot to write to.
    pub closed spec fn spec_write_pos(self) -> usize {
        self.write_pos
    }

    /// Both cursors stay inside the fixed-size ring.
    pub open spec fn wf(self) -> bool {
        &&& self.view().len() == KEY_BUFFER_SIZE
        &&& self.spec_read_pos() < KEY_BUFFER_SIZE
        &&& self.spec_write_pos() < KEY_BUFFER_SIZE
    }

    /// Create an empty keyboard buffer.
    pub fn new() -> (r: Self)
        ensures
            r.wf(),
            r.spec_read_pos() == 0,
            r.spec_write_pos() == 0,
    {
        let mut buffer: Vec<u8> = Vec::new();
        let mut i: usize = 0;
        while i < KEY_BUFFER_SIZE
            invariant
                i <= KEY_BUFFER_SIZE,
                buffer@.len() == i,
            decreases KEY_BUFFER_SIZE - i,
        {
            buffer.push(0);
            i = i + 1;
        }
        Keyboard { buffer, read_pos: 0, write_pos: 0 }
    }

    /// Store a scancode at the write cursor and advance it, overwriting
    /// the oldest unread code when the ring is full.
    pub fn push(&mut self, key: u8)
        requires
            old(self).wf(),
        ensures
            final(self).wf(),
            final(self).view() == old(self).view().update(old(self).spec_write_pos() as int, key),
            final(self).spec_write_pos() == (old(self).spec_write_pos() + 1) % (
            KEY_BUFFER_SIZE as int),
            final(self).spec_read_pos() == old(self).spec_read_pos(),
    {
        self.buffer[self.write_pos] = key;
        self.write_pos = (self.write_pos + 1) % KEY_BUFFER_SIZE;
    }

    /// Take the scancode at the read cursor, or `None` when both cursors
    /// meet (the ring reads as empty).
    pub fn pop(&mut self) -> (r: Option<u8>)
        requires
            old(self).wf(),
        ensures
            final(self).wf(),
            final(self).view() == old(self).view(),
            final(self).spec_write_pos() == old(self).spec_write_pos(),
            old(self).spec_read_pos() == old(self).spec_write_pos() ==> r is None && final(self).spec_read_pos() == old(self).spec_read_pos(),
            old(self).spec_read_pos() != old(self).spec_write_pos() ==> r == Option::Some(
                old(self).view()[old(self).spec_read_pos() as int],
            ) && final(self).spec_read_pos() == (old(self).spec_read_pos() + 1) % (
            KEY_BUFFER_SIZE as int),
    {
        if self.read_pos == self.write_pos {
            Option::None
        } else {
            let key = self.buffer[self.read_pos];
            self.read_pos = (self.read_pos + 1) % KEY_BUFFER_SIZE;
            Option::Some(key)
        }
    }
}

/// Set up the keyboard controller.
pub fn init() {
}

/// Take the next buffered scancode from `kb`.
pub fn read_key(kb: &mut Keyboard) -> (r: Option<u8>)
    requires
        old(kb).wf(),
    ensures
        final(kb).wf(),
        old(kb).spec_read_pos() == old(kb).spec_write_pos() ==> r is None,
        old(kb).spec_read_pos() != old(kb).spec_write_pos() ==> r == Option::Some(
            old(kb).view()[old(kb).spec_read_pos() as int],
        ),
{
    kb.pop()
}

} // verus!
