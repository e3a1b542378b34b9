//! A packed boolean mask.

use vstd::prelude::*;

use crate::error::RayexecError;

verus! {

/// Bit `k` of `byte`, counted from the least significant bit.
pub open spec fn bit_of(byte: u8, k: int) -> bool {
    (byte >> (k as u8)) & 1u8 == 1u8
}

/// The number of `true` values in `bits`.
pub open spec fn count_true(bits: Seq<bool>) -> nat
    decreases bits.len(),
{
    if bits.len() == 0 {
        0
    } else {
        count_true(bits.drop_last()) + if bits.last() {
            1nat
        } else {
            0nat
        }
    }
}

proof fn lemma_bit_set(b: u8, k: u8, j: u8)
    requires
        k < 8,
        j < 8,
    ensures
        bit_of(b | (1u8 << k), j as int) == (j == k || bit_of(b, j as int)),
        bit_of(b & !(1u8 << k), j as int) == (j != k && bit_of(b, j as int)),
{
    assert(((b | (1u8 << k)) >> j) & 1u8 == 1u8 <==> (j == k || (b >> j) & 1u8 == 1u8))
        by (bit_vector)
        requires
            k < 8,
            j < 8,
    ;
    assert(((b & !(1u8 << k)) >> j) & 1u8 == 1u8 <==> (j != k && (b >> j) & 1u8 == 1u8))
        by (bit_vector)
        requires
            k < 8,
            j < 8,
    ;
}

proof fn lemma_bit_const(j: u8)
    requires
        j < 8,
    ensures
        !bit_of(0u8, j as int),
        bit_of(0xffu8, j as int),
        bit_of(1u8, j as int) == (j == 0),
{
    assert((0u8 >> j) & 1u8 != 1u8) by (bit_vector)
        requires
            j < 8,
    ;
    assert((0xffu8 >> j) & 1u8 == 1u8) by (bit_vector)
        requires
            j < 8,
    ;
    assert(((1u8 >> j) & 1u8 == 1u8) <==> j == 0) by (bit_vector)
        requires
            j < 8,
    ;
}

proof fn lemma_bit_low_mask(r: u8, j: u8)
    requires
        1 <= r < 8,
        j < 8,
    ensures
        bit_of(0xffu8 >> ((8 - r) as u8), j as int) == (j < r),
{
    let s: u8 = (8 - r) as u8;
    assert((((0xffu8 >> s) >> j) & 1u8 == 1u8) <==> j < 8 - s) by (bit_vector)
        requires
            1 <= s <= 7,
            j < 8,
    ;
}

proof fn lemma_bit_and(a: u8, b: u8, j: u8)
    requires
        j < 8,
    ensures
        bit_of(a & b, j as int) == (bit_of(a, j as int) && bit_of(b, j as int)),
{
    assert((((a & b) >> j) & 1u8 == 1u8) <==> (((a >> j) & 1u8 == 1u8) && ((b >> j) & 1u8 == 1u8)))
        by (bit_vector)
        requires
            j < 8,
    ;
}

/// Counting one more value adds one when that value is `true`.
pub proof fn lemma_count_true_push(bits: Seq<bool>, b: bool)
    ensures
        count_true(bits.push(b)) == count_true(bits) + if b {
            1nat
        } else {
            0nat
        },
{
    assert(bits.push(b).drop_last() =~= bits);
}

/// Whether `data` packs `len` bits: `ceil(len / 8)` bytes, and no bit set at
/// or beyond `len`.
spec fn packed(len: usize, data: Seq<u8>) -> bool {
    &&& data.len() == (len + 7) / 8
    &&& forall|k: int| len <= k < data.len() * 8 ==> !bit_of(#[trigger] data[k / 8], k % 8)
}

/// A sequence of booleans held as one bit each, eight to a byte, with the
/// unused bits of the last byte kept at zero.
#[derive(Debug, PartialEq, Eq)]
pub struct Bitmap {
    len: usize,
    data: Vec<u8>,
}

impl View for Bitmap {
    type V = Seq<bool>;

    closed spec fn view(&self) -> Seq<bool> {
        Seq::new(self.len as nat, |i: int| bit_of(self.data@[i / 8], i % 8))
    }
}

impl Bitmap {
    /// The representation invariant: `ceil(len / 8)` bytes, and no bit set
    /// at or beyond `len`.
    #[verifier::type_invariant]
    pub closed spec fn wf(&self) -> bool {
        packed(self.len, self.data@)
    }

    /// A bitmap of `len` values, all `true`.
    pub fn new_with_all_true(len: usize) -> (r: Bitmap)
        ensures
            r.wf(),
            r@ == Seq::new(len as nat, |i: int| true),
    {
        let full: usize = len / 8;
        let rem: usize = len % 8;
        let mut data: Vec<u8> = Vec::new();
        let mut i: usize = 0;
        while i < full
            invariant
                i <= full,
                data.len() == i,
                forall|j: int| 0 <= j < i ==> data[j] == 0xffu8,
            decreases full - i,
        {
            data.push(0xffu8);
            i += 1;
        }
        if rem != 0 {
            let s: u8 = (8 - rem) as u8;
            data.push(0xffu8 >> s);
        }
        proof {
            assert forall|k: int| 0 <= k < data.len() * 8 implies bit_of(
                #[trigger] data@[k / 8],
                k % 8,
            ) == (k < len) by {
                if k / 8 < full {
                    lemma_bit_const((k % 8) as u8);
                } else {
                    lemma_bit_low_mask(rem as u8, (k % 8) as u8);
                }
            }
        }
        let r = Bitmap { len, data };
        assert(r@ =~= Seq::new(len as nat, |i: int| true));
        r
    }

    /// A bitmap of `len` values, all `false`.
    pub fn new_with_all_false(len: usize) -> (r: Bitmap)
        ensures
            r.wf(),
            r@ == Seq::new(len as nat, |i: int| false),
    {
        let bytes: usize = len / 8 + if len % 8 != 0 {
            1usize
        } else {
            0usize
        };
        let mut data: Vec<u8> = Vec::new();
        let mut i: usize = 0;
        while i < bytes
            invariant
                i <= bytes,
                data.len() == i,
                forall|j: int| 0 <= j < i ==> data[j] == 0u8,
            decreases bytes - i,
        {
            data.push(0u8);
            i += 1;
        }
        proof {
            assert forall|k: int| 0 <= k < data.len() * 8 implies !bit_of(
                #[trigger] data@[k / 8],
                k % 8,
            ) by {
                lemma_bit_const((k % 8) as u8);
            }
        }
        let r = Bitmap { len, data };
        assert(r@ =~= Seq::new(len as nat, |i: int| false));
        r
    }

    /// The number of values held.
    pub fn len(&self) -> (n: usize)
        ensures
            n == self@.len(),
    {
        self.len
    }

    /// Whether no values are held.
    pub fn is_empty(&self) -> (b: bool)
        ensures
            b == (self@.len() == 0),
    {
        self.len == 0
    }

    /// The value at `idx`.
    pub fn value(&self, idx: usize) -> (b: bool)
        requires
            idx < self@.len(),
        ensures
            b == self@[idx as int],
    {
        proof {
            use_type_invariant(self);
        }
        let byte: u8 = self.data[idx / 8];
        let k: u8 = (idx % 8) as u8;
        (byte >> k) & 1u8 == 1u8
    }

    /// The value at `idx`, or `None` when `idx` is out of bounds.
    pub fn get(&self, idx: usize) -> (r: Option<bool>)
        ensures
            r == if idx < self@.len() {
                Some(self@[idx as int])
            } else {
                None
            },
    {
        if idx < self.len {
            Some(self.value(idx))
        } else {
            None
        }
    }

    /// Sets the value at `idx`, which must be in bounds.
    pub fn set_unchecked(&mut self, idx: usize, val: bool)
        requires
            idx < old(self)@.len(),
        ensures
            final(self).wf(),
            final(self)@ == old(self)@.update(idx as int, val),
    {
        proof {
            use_type_invariant(&*self);
        }
        let byte: u8 = self.data[idx / 8];
        let k: u8 = (idx % 8) as u8;
        let updated: u8 = if val {
            byte | (1u8 << k)
        } else {
            byte & !(1u8 << k)
        };
        let ghost before = *self;
        let ghost after = self.data@.update(idx as int / 8, updated);
        let mut taken = Bitmap::new_with_all_false(0);
        core::mem::swap(self, &mut taken);
        let Bitmap { len, data: mut data } = taken;
        data.set(idx / 8, updated);
        proof {
            assert forall|j: int| 0 <= j < after.len() * 8 implies bit_of(
                #[trigger] after[j / 8],
                j % 8,
            ) == if j == idx {
                val
            } else {
                bit_of(before.data@[j / 8], j % 8)
            } by {
                if j / 8 == idx / 8 {
                    lemma_bit_set(byte, k, (j % 8) as u8);
                }
            }
            assert(packed(len, after));
        }
        let r = Bitmap { len, data };
        assert(r@ =~= before@.update(idx as int, val));
        *self = r;
    }

    /// Sets the value at `idx`, or fails with `OutOfBounds`.
    pub fn set(&mut self, idx: usize, val: bool) -> (r: Result<(), RayexecError>)
        ensures
            final(self).wf(),
            match r {
                Ok(_) => idx < old(self)@.len() && final(self)@ == old(self)@.update(
                    idx as int,
                    val,
                ),
                Err(e) => idx >= old(self)@.len() && final(self)@ == old(self)@
                    && e == (RayexecError::OutOfBounds { index: idx, len: old(self)@.len() as usize }),
            },
    {
        proof {
            use_type_invariant(&*self);
        }
        if idx >= self.len {
            return Err(RayexecError::OutOfBounds { index: idx, len: self.len });
        }
        self.set_unchecked(idx, val);
        Ok(())
    }

    /// Appends one value.
    pub fn push(&mut self, val: bool)
        requires
            old(self)@.len() < usize::MAX,
        ensures
            final(self).wf(),
            final(self)@ == old(self)@.push(val),
    {
        proof {
            use_type_invariant(&*self);
        }
        let ghost before = *self;
        let mut taken = Bitmap::new_with_all_false(0);
        core::mem::swap(self, &mut taken);
        let Bitmap { len: idx, data: mut data } = taken;
        if idx % 8 == 0 {
            data.push(if val {
                1u8
            } else {
                0u8
            });
        } else if val {
            let byte: u8 = data[idx / 8];
            let k: u8 = (idx % 8) as u8;
            data.set(idx / 8, byte | (1u8 << k));
        }
        proof {
            assert forall|j: int| 0 <= j < data.len() * 8 implies bit_of(
                #[trigger] data@[j / 8],
                j % 8,
            ) == if j == idx {
                val
            } else if j < idx {
                bit_of(before.data@[j / 8], j % 8)
            } else {
                false
            } by {
                if idx % 8 == 0 {
                    if j / 8 == idx / 8 {
                        lemma_bit_const((j % 8) as u8);
                    }
                } else if j / 8 == idx / 8 {
                    lemma_bit_set(before.data@[idx as int / 8], (idx % 8) as u8, (j % 8) as u8);
                }
            }
        }
        let r = Bitmap { len: idx + 1, data };
        assert(r@ =~= before@.push(val));
        *self = r;
    }

    /// A bitmap that holds the values of `values`, in order.
    pub fn from_bools(values: &Vec<bool>) -> (r: Bitmap)
        ensures
            r.wf(),
            r@ == values@,
    {
        let mut r = Bitmap::new_with_all_false(0);
        let mut i: usize = 0;
        while i < values.len()
            invariant
                i <= values.len(),
                r.wf(),
                r@ == values@.take(i as int),
            decreases values.len() - i,
        {
            r.push(values[i]);
            assert(values@.take(i as int).push(values[i as int]) =~= values@.take(i + 1));
            i += 1;
        }
        assert(values@.take(values.len() as int) =~= values@);
        r
    }

    /// The number of `true` values.
    pub fn count_trues(&self) -> (n: usize)
        ensures
            n == count_true(self@),
    {
        let mut n: usize = 0;
        let mut i: usize = 0;
        while i < self.len()
            invariant
                i <= self@.len(),
                n == count_true(self@.take(i as int)),
                n <= i,
            decreases self@.len() - i,
        {
            let b = self.value(i);
            proof {
                lemma_count_true_push(self@.take(i as int), b);
                assert(self@.take(i as int).push(b) =~= self@.take(i + 1));
            }
            if b {
                n += 1;
            }
            i += 1;
        }
        assert(self@.take(self@.len() as int) =~= self@);
        n
    }

    /// The position-wise conjunction of two bitmaps of equal length; fails
    /// with `LengthMismatch` when the lengths differ.
    pub fn bit_and(&self, other: &Bitmap) -> (r: Result<Bitmap, RayexecError>)
        ensures
            match r {
                Ok(b) => {
                    &&& b.wf()
                    &&& self@.len() == other@.len()
                    &&& b@.len() == self@.len()
                    &&& forall|i: int| 0 <= i < b@.len() ==> b@[i] == (self@[i] && other@[i])
                },
                Err(e) => self@.len() != other@.len() && e == (RayexecError::LengthMismatch {
                    left: self@.len() as usize,
                    right: other@.len() as usize,
                }),
            },
    {
        proof {
            use_type_invariant(self);
            use_type_invariant(other);
        }
        if self.len != other.len {
            return Err(RayexecError::LengthMismatch { left: self.len, right: other.len });
        }
        let mut data: Vec<u8> = Vec::new();
        let mut i: usize = 0;
        while i < self.data.len()
            invariant
                self.data.len() == other.data.len(),
                i <= self.data.len(),
                data.len() == i,
                forall|j: int| 0 <= j < i ==> data[j] == self.data[j] & other.data[j],
            decreases self.data.len() - i,
        {
            data.push(self.data[i] & other.data[i]);
            i += 1;
        }
        proof {
            assert forall|k: int| 0 <= k < data.len() * 8 implies bit_of(
                #[trigger] data@[k / 8],
                k % 8,
            ) == (bit_of(self.data@[k / 8], k % 8) && bit_of(other.data@[k / 8], k % 8)) by {
                lemma_bit_and(self.data@[k / 8], other.data@[k / 8], (k % 8) as u8);
            }
        }
        let r = Bitmap { len: self.len, data };
        Ok(r)
    }
}

impl Clone for Bitmap {
    /// A copy of the bitmap.
    fn clone(&self) -> (r: Bitmap)
        ensures
            r.wf(),
            r@ == self@,
    {
        proof {
            use_type_invariant(self);
        }
        let mut data: Vec<u8> = Vec::new();
        let mut i: usize = 0;
        while i < self.data.len()
            invariant
                i <= self.data.len(),
                data@ == self.data@.take(i as int),
            decreases self.data.len() - i,
        {
            data.push(self.data[i]);
            assert(self.data@.take(i as int).push(self.data[i as int]) =~= self.data@.take(
                i + 1,
            ));
            i += 1;
        }
        assert(self.data@.take(self.data.len() as int) =~= self.data@);
        let r = Bitmap { len: self.len, data };
        assert(r@ =~= self@);
        r
    }
}

} // verus!
