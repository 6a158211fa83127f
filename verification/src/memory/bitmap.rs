//! Dense bit vector over a byte buffer: tracks the free/used state of a
//! linear sequence of fixed-size units, one bit per unit.

use vstd::prelude::*;

verus! {

/// Bitmap tracking allocated/free state, one bit per unit.
///
/// Indices at or beyond `size` are treated as "not free" by the query
/// operations and are ignored by the mutators.
pub struct Bitmap {
    data: Vec<u8>,
    size: usize,
}

impl Bitmap {
    /// Bit `i` of the backing buffer, the tracked state of unit `i`.
    pub closed spec fn bit(self, i: int) -> bool {
        (self.data@[i / 8] >> ((i % 8) as usize)) & 1 == 1
    }

    /// The buffer is large enough for all `size` tracked bits.
    pub closed spec fn wf(self) -> bool {
        self.size <= self.data@.len() * 8
    }

    /// Number of tracked units.
    pub closed spec fn spec_size(self) -> usize {
        self.size
    }

    /// How many of the bits below `n` are clear (free).
    pub open spec fn num_clear(self, n: int) -> int
        decreases n,
    {
        if n <= 0 {
            0
        } else {
            self.num_clear(n - 1) + if self.bit(n - 1) {
                0int
            } else {
                1int
            }
        }
    }

    /// How many of the bits below `n` are set (allocated).
    pub open spec fn num_set(self, n: int) -> int
        decreases n,
    {
        if n <= 0 {
            0
        } else {
            self.num_set(n - 1) + if self.bit(n - 1) {
                1int
            } else {
                0int
            }
        }
    }

    /// All bits of `[t, t + count)` are clear and the window lies inside
    /// the tracked range.
    pub open spec fn window_clear(self, t: int, count: int) -> bool {
        &&& 0 <= t
        &&& t + count <= self.spec_size()
        &&& forall|j: int| t <= j < t + count ==> !self.bit(j)
    }

    /// Create a new bitmap over `data`, tracking `size` bits, all clear.
    pub fn new(data: Vec<u8>, size: usize) -> (r: Self)
        requires
            size <= data@.len() * 8,
        ensures
            r.wf(),
            r.spec_size() == size,
            forall|j: int| 0 <= j < size ==> !r.bit(j),
    {
        let mut data = data;
        let n = data.len();
        let mut i: usize = 0;
        while i < n
            invariant
                n == data@.len(),
                i <= n,
                forall|k: int| 0 <= k < i ==> data@[k] == 0u8,
            decreases n - i,
        {
            data[i] = 0u8;
            i = i + 1;
        }
        let r = Bitmap { data, size };
        proof {
            assert forall|j: int| 0 <= j < size implies !r.bit(j) by {
                lemma_bit_index(j, size as int, r.data@.len() as int);
                let b = r.data@[j / 8];
                let s = (j % 8) as usize;
                assert(b == 0u8);
                assert((0u8 >> s) & 1 != 1) by (bit_vector);
            }
        }
        r
    }

    /// Mark unit `index` as allocated; a no-op when `index` is out of range.
    pub fn set(&mut self, index: usize)
        requires
            old(self).wf(),
        ensures
            final(self).wf(),
            final(self).spec_size() == old(self).spec_size(),
            index < old(self).spec_size() ==> final(self).bit(index as int),
            forall|j: int|
                0 <= j < old(self).spec_size() && j != index ==> final(self).bit(j) == old(self).bit(j),
            index >= old(self).spec_size() ==> *final(self) == *old(self),
    {
        if index < self.size {
            proof {
                lemma_bit_index(index as int, self.size as int, self.data@.len() as int);
            }
            let byte_idx = index / 8;
            let bit_idx = index % 8;
            let b = self.data[byte_idx];
            self.data[byte_idx] = b | (1u8 << bit_idx);
            proof {
                self.lemma_byte_update(*old(self), index as int, true);
            }
        }
    }

    /// Mark unit `index` as free; a no-op when `index` is out of range.
    pub fn clear(&mut self, index: usize)
        requires
            old(self).wf(),
        ensures
            final(self).wf(),
            final(self).spec_size() == old(self).spec_size(),
            index < old(self).spec_size() ==> !final(self).bit(index as int),
            forall|j: int|
                0 <= j < old(self).spec_size() && j != index ==> final(self).bit(j) == old(self).bit(j),
            index >= old(self).spec_size() ==> *final(self) == *old(self),
    {
        if index < self.size {
            proof {
                lemma_bit_index(index as int, self.size as int, self.data@.len() as int);
            }
            let byte_idx = index / 8;
            let bit_idx = index % 8;
            let b = self.data[byte_idx];
            self.data[byte_idx] = b & !(1u8 << bit_idx);
            proof {
                self.lemma_byte_update(*old(self), index as int, false);
            }
        }
    }

    /// After writing bit `index` of the byte it lives in, every tracked bit
    /// other than `index` reads as before, and bit `index` reads as `value`.
    proof fn lemma_byte_update(self, prev: Self, index: int, value: bool)
        requires
            prev.wf(),
            0 <= index < prev.size,
            self.size == prev.size,
            self.data@.len() == prev.data@.len(),
            self.data@ == prev.data@.update(
                index / 8,
                if value {
                    prev.data@[index / 8] | (1u8 << ((index % 8) as usize))
                } else {
                    prev.data@[index / 8] & !(1u8 << ((index % 8) as usize))
                },
            ),
        ensures
            self.wf(),
            self.bit(index) == value,
            forall|j: int| 0 <= j < prev.size && j != index ==> self.bit(j) == prev.bit(j),
    {
        lemma_bit_index(index, prev.size as int, prev.data@.len() as int);
        let k = (index % 8) as usize;
        let ob = prev.data@[index / 8];
        lemma_u8_bit_ops(ob, k, k);
        assert forall|j: int| 0 <= j < prev.size && j != index implies self.bit(j) == prev.bit(
            j,
        ) by {
            lemma_bit_index(j, prev.size as int, prev.data@.len() as int);
            if j / 8 == index / 8 {
                lemma_u8_bit_ops(ob, k, (j % 8) as usize);
                if j % 8 == index % 8 {
                    vstd::arithmetic::div_mod::lemma_fundamental_div_mod(j, 8);
                    vstd::arithmetic::div_mod::lemma_fundamental_div_mod(index, 8);
                    assert(j == index);
                }
            }
        }
    }

    /// Check whether unit `index` is allocated; `false` when out of range.
    pub fn is_set(&self, index: usize) -> (r: bool)
        requires
            self.wf(),
        ensures
            r == (index < self.spec_size() && self.bit(index as int)),
    {
        if index >= self.size {
            return false;
        }
        proof {
            lemma_bit_index(index as int, self.size as int, self.data@.len() as int);
        }
        let byte_idx = index / 8;
        let bit_idx = index % 8;
        (self.data[byte_idx] >> bit_idx) & 1 == 1
    }

    /// Find the first free unit: the least `i < size` whose bit is clear.
    ///
    /// Returns `None` exactly when every tracked bit is set. Scans byte by
    /// byte, skipping fully allocated bytes.
    pub fn find_first_clear(&self) -> (r: Option<usize>)
        requires
            self.wf(),
        ensures
            match r {
                Some(i) => i < self.spec_size() && !self.bit(i as int) && forall|j: int|
                    0 <= j < i ==> self.bit(j),
                None => forall|j: int| 0 <= j < self.spec_size() ==> self.bit(j),
            },
            (r is None) <==> (forall|j: int| 0 <= j < self.spec_size() ==> self.bit(j)),
    {
        let n_bytes = self.size / 8 + if self.size % 8 != 0 {
            1
        } else {
            0
        };
        proof {
            lemma_n_bytes(self.size as int, self.data@.len() as int);
        }
        let mut byte_idx: usize = 0;
        while byte_idx < n_bytes
            invariant
                self.wf(),
                n_bytes == self.size / 8 + if self.size % 8 != 0 {
                    1int
                } else {
                    0int
                },
                n_bytes <= self.data@.len(),
                byte_idx <= n_bytes,
                forall|j: int| 0 <= j < byte_idx * 8 && j < self.size ==> self.bit(j),
            decreases n_bytes - byte_idx,
        {
            let byte = self.data[byte_idx];
            if byte != 0xFF {
                let mut bit_idx: usize = 0;
                proof {
                    lemma_n_bytes(self.size as int, self.data@.len() as int);
                    assert(byte_idx * 8 <= self.size) by (nonlinear_arith)
                        requires
                            byte_idx < self.size / 8 + (if self.size % 8 != 0 {
                                1int
                            } else {
                                0int
                            }),
                            self.size >= 0,
                    ;
                }
                let base = byte_idx * 8;
                while bit_idx < 8
                    invariant
                        self.wf(),
                        bit_idx <= 8,
                        byte_idx < self.data@.len(),
                        base == byte_idx * 8,
                        base <= self.size,
                        forall|j: int| 0 <= j < base + bit_idx && j < self.size ==> self.bit(j),
                    decreases 8 - bit_idx,
                {
                    if self.size - base <= bit_idx {
                        return None;
                    }
                    let index = base + bit_idx;
                    if !self.is_set(index) {
                        return Some(index);
                    }
                    bit_idx = bit_idx + 1;
                }
                proof {
                    assert(forall|j: int|
                        0 <= j < (byte_idx + 1) * 8 && j < self.size ==> self.bit(j));
                }
            } else {
                proof {
                    assert forall|j: int|
                        byte_idx * 8 <= j < (byte_idx + 1) * 8 && j < self.size implies self.bit(
                        j,
                    ) by {
                        lemma_bit_index(j, self.size as int, self.data@.len() as int);
                        lemma_div_in_byte(j, byte_idx as int);
                        lemma_u8_bit_ops(self.data@[j / 8], 0, (j % 8) as usize);
                    }
                }
            }
            byte_idx = byte_idx + 1;
        }
        proof {
            assert forall|j: int| 0 <= j < self.size implies self.bit(j) by {
                lemma_n_bytes(self.size as int, self.data@.len() as int);
            }
        }
        None
    }

    /// Find the first run of `count` consecutive free units.
    ///
    /// Returns the least start index whose `count`-bit window is entirely
    /// clear, or `None` when no such window exists. A `count` of zero is
    /// defined to return `None`.
    pub fn find_consecutive_clear(&self, count: usize) -> (r: Option<usize>)
        requires
            self.wf(),
        ensures
            count == 0 ==> r is None,
            match r {
                Some(s) => count > 0 && self.window_clear(s as int, count as int) && forall|t: int|
                    0 <= t < s ==> !self.window_clear(t, count as int),
                None => forall|t: int| !self.window_clear(t, count as int) || count == 0,
            },
    {
        if count == 0 {
            return None;
        }
        let mut consecutive: usize = 0;
        let mut start_idx: usize = 0;
        let mut idx: usize = 0;
        while idx < self.size
            invariant
                self.wf(),
                count > 0,
                idx <= self.size,
                consecutive < count,
                consecutive <= idx,
                start_idx == idx - consecutive,
                forall|j: int| idx - consecutive <= j < idx ==> !self.bit(j),
                forall|t: int| 0 <= t < idx - consecutive ==> !self.window_clear(t, count as int),
            decreases self.size - idx,
        {
            if !self.is_set(idx) {
                if consecutive == 0 {
                    start_idx = idx;
                }
                consecutive = consecutive + 1;
                if consecutive == count {
                    proof {
                        assert(self.window_clear(start_idx as int, count as int));
                    }
                    return Some(start_idx);
                }
            } else {
                proof {
                    assert forall|t: int| 0 <= t < idx + 1 implies !self.window_clear(
                        t,
                        count as int,
                    ) by {
                        if idx - consecutive <= t {
                            if t + count <= idx {
                                assert(count <= consecutive);
                            } else {
                                assert(t <= idx < t + count);
                                assert(self.bit(idx as int));
                            }
                        }
                    }
                }
                consecutive = 0;
                start_idx = idx + 1;
            }
            idx = idx + 1;
        }
        proof {
            assert forall|t: int| !self.window_clear(t, count as int) by {
                if 0 <= t && t + count <= self.size {
                    if t < self.size - consecutive {
                    } else {
                        assert(count <= consecutive);
                    }
                }
            }
        }
        None
    }

    /// Count the free (clear) units.
    pub fn count_free(&self) -> (r: usize)
        requires
            self.wf(),
        ensures
            r == self.num_clear(self.spec_size() as int),
    {
        let mut count: usize = 0;
        let mut idx: usize = 0;
        while idx < self.size
            invariant
                self.wf(),
                idx <= self.size,
                count == self.num_clear(idx as int),
                count <= idx,
            decreases self.size - idx,
        {
            if !self.is_set(idx) {
                count = count + 1;
            }
            idx = idx + 1;
        }
        count
    }

    /// Count the allocated (set) units.
    pub fn count_allocated(&self) -> (r: usize)
        requires
            self.wf(),
        ensures
            r == self.num_set(self.spec_size() as int),
    {
        proof {
            self.lemma_counts_partition(self.size as int);
        }
        self.size - self.count_free()
    }

    /// Get the total number of units tracked.
    pub fn size(&self) -> (r: usize)
        ensures
            r == self.spec_size(),
    {
        self.size
    }

    /// Two bitmaps that agree on every bit below `n` have the same counts
    /// below `n`.
    pub proof fn lemma_counts_agree(self, other: Self, n: int)
        requires
            forall|j: int| 0 <= j < n ==> self.bit(j) == other.bit(j),
        ensures
            self.num_set(n) == other.num_set(n),
            self.num_clear(n) == other.num_clear(n),
        decreases n,
    {
        if n > 0 {
            self.lemma_counts_agree(other, n - 1);
        }
    }

    /// Changing one bit changes `num_set` by exactly that bit's transition.
    pub proof fn lemma_num_set_update(self, post: Self, i: int, n: int)
        requires
            0 <= i < n,
            forall|j: int| 0 <= j < n && j != i ==> post.bit(j) == self.bit(j),
        ensures
            !self.bit(i) && post.bit(i) ==> post.num_set(n) == self.num_set(n) + 1,
            self.bit(i) && !post.bit(i) ==> post.num_set(n) == self.num_set(n) - 1,
            self.bit(i) == post.bit(i) ==> post.num_set(n) == self.num_set(n),
        decreases n,
    {
        if i == n - 1 {
            self.lemma_counts_agree(post, n - 1);
        } else {
            self.lemma_num_set_update(post, i, n - 1);
        }
    }

    /// A bitmap whose bits below `n` are all clear has `num_set(n) == 0`.
    pub proof fn lemma_num_set_all_clear(self, n: int)
        requires
            forall|j: int| 0 <= j < n ==> !self.bit(j),
        ensures
            self.num_set(n) == 0,
        decreases n,
    {
        if n > 0 {
            self.lemma_num_set_all_clear(n - 1);
        }
    }

    /// Clearing an already-free unit is idempotent: starting from a state
    /// where unit `i` is free, a `clear(i)` (whose effect on the bits is
    /// given by its contract) leaves every tracked unit exactly as it was.
    pub proof fn lemma_clear_idempotent(self, post: Self, i: usize)
        requires
            i < self.spec_size(),
            !self.bit(i as int),
            post.spec_size() == self.spec_size(),
            !post.bit(i as int),
            forall|j: int|
                0 <= j < self.spec_size() && j != i ==> post.bit(j) == self.bit(j),
        ensures
            forall|j: int| 0 <= j < self.spec_size() ==> post.bit(j) == self.bit(j),
    {
    }

    /// A bitmap whose bits below `n` are all set has `num_set(n) == n`.
    pub proof fn lemma_num_set_all_set(self, n: int)
        requires
            n >= 0,
            forall|j: int| 0 <= j < n ==> self.bit(j),
        ensures
            self.num_set(n) == n,
        decreases n,
    {
        if n > 0 {
            assert(self.bit(n - 1));
            self.lemma_num_set_all_set(n - 1);
        }
    }

    /// The free count and the allocated count always partition the tracked
    /// range: `num_set(n) + num_clear(n) == n`.
    pub proof fn lemma_counts_partition(self, n: int)
        requires
            n >= 0,
        ensures
            self.num_set(n) + self.num_clear(n) == n,
            0 <= self.num_set(n) <= n,
            0 <= self.num_clear(n) <= n,
        decreases n,
    {
        if n > 0 {
            self.lemma_counts_partition(n - 1);
        }
    }
}

/// A tracked index addresses a byte inside the buffer and a bit inside
/// that byte.
proof fn lemma_bit_index(i: int, size: int, len: int)
    requires
        0 <= i < size,
        size <= len * 8,
    ensures
        0 <= i / 8 < len,
        0 <= i % 8 < 8,
        i / 8 * 8 + i % 8 == i,
{
    vstd::arithmetic::div_mod::lemma_fundamental_div_mod(i, 8);
    assert(i / 8 < len) by (nonlinear_arith)
        requires
            0 <= i,
            i < len * 8,
    ;
}

/// The byte scan covers exactly the tracked bits: `ceil(size / 8)` bytes
/// fit in the buffer and reach past the last tracked bit.
proof fn lemma_n_bytes(size: int, len: int)
    requires
        0 <= size <= len * 8,
    ensures
        size / 8 + (if size % 8 != 0 {
            1int
        } else {
            0int
        }) <= len,
        (size / 8 + (if size % 8 != 0 {
            1int
        } else {
            0int
        })) * 8 >= size,
{
    vstd::arithmetic::div_mod::lemma_fundamental_div_mod(size, 8);
    assert(size / 8 + (if size % 8 != 0 {
        1int
    } else {
        0int
    }) <= len) by (nonlinear_arith)
        requires
            0 <= size <= len * 8,
            size == size / 8 * 8 + size % 8,
            0 <= size % 8 < 8,
    ;
}

/// A bit index inside byte `b` has that byte as its quotient.
proof fn lemma_div_in_byte(j: int, b: int)
    requires
        b * 8 <= j < (b + 1) * 8,
        0 <= j,
    ensures
        j / 8 == b,
        0 <= j % 8 < 8,
{
    vstd::arithmetic::div_mod::lemma_fundamental_div_mod(j, 8);
    assert(j / 8 == b) by (nonlinear_arith)
        requires
            b * 8 <= j < (b + 1) * 8,
            j == j / 8 * 8 + j % 8,
            0 <= j % 8 < 8,
    ;
}

/// Reading a bit of a byte after setting or clearing one bit: the written
/// position reads back as written, every other position is unchanged, and
/// the all-ones byte reads as set everywhere.
proof fn lemma_u8_bit_ops(b: u8, k: usize, j: usize)
    by (bit_vector)
    requires
        k < 8,
        j < 8,
    ensures
        ((b | (1u8 << k)) >> j) & 1 == (if j == k {
            1u8
        } else {
            (b >> j) & 1
        }),
        ((b & !(1u8 << k)) >> j) & 1 == (if j == k {
            0u8
        } else {
            (b >> j) & 1
        }),
        b == 0xFF ==> (b >> j) & 1 == 1,
{
}

} // verus!
