use vstd::prelude::*;

verus! {

/// Number of bytes needed to hold `bit_count` bits: `ceil(bit_count / 8)`.
pub open spec fn byte_capacity_for(bit_count: nat) -> nat {
    (bit_count + 7) / 8
}

/// The bit at position `offset` of `byte`, counting from the least significant bit.
pub open spec fn bit_at(byte: u8, offset: u8) -> bool {
    (byte >> offset) & 1u8 == 1u8
}

/// Setting bit `k` of a byte turns that bit on and keeps every other bit.
proof fn lemma_bit_at_or(byte: u8, k: u8, j: u8)
    by (bit_vector)
    requires
        k < 8,
        j < 8,
    ensures
        bit_at(byte | (1u8 << k), j) == (j == k || bit_at(byte, j)),
{
}

/// Clearing bit `k` of a byte turns that bit off and keeps every other bit.
proof fn lemma_bit_at_and_not(byte: u8, k: u8, j: u8)
    by (bit_vector)
    requires
        k < 8,
        j < 8,
    ensures
        bit_at(byte & !(1u8 << k), j) == (j != k && bit_at(byte, j)),
{
}

/// Masking a byte with bit `k` alone tells whether that bit is on.
proof fn lemma_bit_at_mask(byte: u8, k: u8)
    by (bit_vector)
    requires
        k < 8,
    ensures
        (byte & (1u8 << k) != 0u8) == bit_at(byte, k),
{
}

/// Why an operation on a [`Bitmap`] was refused.
#[derive(Debug, Clone, Copy, PartialEq, Eq, Structural)]
pub enum BitmapError {
    /// A bitmap was requested with no bits.
    InvalidArgument,
    /// A bit index was not below the bitmap's bit count.
    IndexOutOfRange,
}

/// A fixed number of bits stored in a vector of bytes.
///
/// Bit `i` lives in byte `i / 8`, at position `i % 8` counted from the least
/// significant bit.
pub struct Bitmap {
    /// The capacity of the underlying vector in terms of 8-bit chunks.
    bitmap_capacity: usize,
    /// The total number of bits in the bitmap.
    bit_count: usize,
    /// The underlying vector storing the bitmap data.
    map: Vec<u8>,
}

impl View for Bitmap {
    type V = Seq<bool>;

    /// The bits of the bitmap, in index order.
    closed spec fn view(&self) -> Seq<bool> {
        Seq::new(self.bit_count as nat, |i: int| bit_at(self.map@[i / 8], (i % 8) as u8))
    }
}

impl Bitmap {
    /// The bitmap is well formed: it holds at least one bit, and its byte
    /// vector has exactly the capacity needed for its bits.
    pub closed spec fn wf(&self) -> bool {
        &&& self.bit_count > 0
        &&& self.bitmap_capacity as nat == byte_capacity_for(self.bit_count as nat)
        &&& self.map@.len() == self.bitmap_capacity
    }

    /// Creates a bitmap of `bit_count` bits, all of them unset.
    ///
    /// Fails with `InvalidArgument` when `bit_count` is zero.
    pub fn new(bit_count: usize) -> (r: Result<Bitmap, BitmapError>)
        ensures
            r is Err <==> bit_count == 0,
            r is Err ==> r->Err_0 == BitmapError::InvalidArgument,
            r matches Ok(b) ==> {
                &&& b.wf()
                &&& b@.len() == bit_count
                &&& forall|i: int| 0 <= i < bit_count ==> !(#[trigger] b@[i])
            },
    {
        if bit_count == 0 {
            return Err(BitmapError::InvalidArgument);
        }
        let bitmap_capacity: usize = bit_count / 8 + if bit_count % 8 == 0 { 0 } else { 1 };
        let map: Vec<u8> = vec![0u8; bitmap_capacity];
        let b = Bitmap { bitmap_capacity, bit_count, map };
        assert forall|i: int| 0 <= i < bit_count implies !(#[trigger] b@[i]) by {
            let byte = b.map@[i / 8];
            let offset = (i % 8) as u8;
            assert(byte == 0u8);
            assert(!bit_at(0u8, offset)) by (bit_vector);
        }
        Ok(b)
    }

    /// The byte that holds bit `bit_index` exists in a well-formed bitmap.
    proof fn lemma_byte_in_range(&self, bit_index: int)
        requires
            self.wf(),
            0 <= bit_index < self@.len(),
        ensures
            0 <= bit_index / 8 < self.map@.len(),
    {
    }

    /// Sets the bit at `bit_index` to 1.
    ///
    /// Fails with `IndexOutOfRange`, and changes nothing, when `bit_index` is not
    /// below the bit count.
    pub fn set(&mut self, bit_index: usize) -> (r: Result<(), BitmapError>)
        requires
            old(self).wf(),
        ensures
            final(self).wf(),
            r is Ok <==> bit_index < old(self)@.len(),
            r is Ok ==> final(self)@ == old(self)@.update(bit_index as int, true),
            r is Err ==> r->Err_0 == BitmapError::IndexOutOfRange && final(self)@ == old(self)@,
    {
        if bit_index >= self.bit_count {
            return Err(BitmapError::IndexOutOfRange);
        }
        let byte_index: usize = bit_index / 8;
        let offset: u8 = (bit_index % 8) as u8;
        proof {
            self.lemma_byte_in_range(bit_index as int);
        }
        let old_byte: u8 = self.map[byte_index];
        self.map.set(byte_index, old_byte | (1u8 << offset));
        proof {
            let ghost pre = *old(self);
            assert forall|j: int| 0 <= j < self@.len() implies #[trigger] self@[j]
                == pre@.update(bit_index as int, true)[j] by {
                if j / 8 == bit_index / 8 {
                    lemma_bit_at_or(old_byte, offset, (j % 8) as u8);
                }
            }
            assert(self@ =~= pre@.update(bit_index as int, true));
        }
        Ok(())
    }

    /// Sets the bit at `bit_index` to 0.
    ///
    /// Fails with `IndexOutOfRange`, and changes nothing, when `bit_index` is not
    /// below the bit count.
    pub fn unset(&mut self, bit_index: usize) -> (r: Result<(), BitmapError>)
        requires
            old(self).wf(),
        ensures
            final(self).wf(),
            r is Ok <==> bit_index < old(self)@.len(),
            r is Ok ==> final(self)@ == old(self)@.update(bit_index as int, false),
            r is Err ==> r->Err_0 == BitmapError::IndexOutOfRange && final(self)@ == old(self)@,
    {
        if bit_index >= self.bit_count {
            return Err(BitmapError::IndexOutOfRange);
        }
        let byte_index: usize = bit_index / 8;
        let offset: u8 = (bit_index % 8) as u8;
        proof {
            self.lemma_byte_in_range(bit_index as int);
        }
        let old_byte: u8 = self.map[byte_index];
        self.map.set(byte_index, old_byte & !(1u8 << offset));
        proof {
            let ghost pre = *old(self);
            assert forall|j: int| 0 <= j < self@.len() implies #[trigger] self@[j]
                == pre@.update(bit_index as int, false)[j] by {
                if j / 8 == bit_index / 8 {
                    lemma_bit_at_and_not(old_byte, offset, (j % 8) as u8);
                }
            }
            assert(self@ =~= pre@.update(bit_index as int, false));
        }
        Ok(())
    }

    /// Returns whether the bit at `bit_index` is 1.
    ///
    /// Fails with `IndexOutOfRange` when `bit_index` is not below the bit count.
    pub fn get(&self, bit_index: usize) -> (r: Result<bool, BitmapError>)
        requires
            self.wf(),
        ensures
            r is Ok <==> bit_index < self@.len(),
            r is Ok ==> r->Ok_0 == self@[bit_index as int],
            r is Err ==> r->Err_0 == BitmapError::IndexOutOfRange,
    {
        if bit_index >= self.bit_count {
            return Err(BitmapError::IndexOutOfRange);
        }
        let offset: u8 = (bit_index % 8) as u8;
        proof {
            self.lemma_byte_in_range(bit_index as int);
        }
        let byte: u8 = self.map[bit_index / 8];
        proof {
            lemma_bit_at_mask(byte, offset);
        }
        Ok(byte & (1u8 << offset) != 0)
    }

    /// Returns the total number of bits in the bitmap.
    pub fn get_bit_count(&self) -> (r: usize)
        ensures
            r == self@.len(),
    {
        self.bit_count
    }

    /// Returns the number of bytes that hold the bits: `ceil(bit_count / 8)`.
    pub fn get_bitmap_capacity(&self) -> (r: usize)
        requires
            self.wf(),
        ensures
            r == byte_capacity_for(self@.len()),
    {
        self.bitmap_capacity
    }
}

} // verus!
