//! The per-row null mask of an array.

use vstd::prelude::*;

use crate::arrays::bitmap::{count_true, lemma_count_true_push, Bitmap};
use crate::arrays::selection::{in_bounds, SelectionVector};
use crate::error::RayexecError;

verus! {

/// One bit per physical row: `true` where the row holds a value, `false`
/// where it is null.
///
/// A mask with every row valid is held without storage; the packed bits are
/// allocated the first time a row is invalidated.
#[derive(Debug, PartialEq, Eq)]
pub struct Validity {
    len: usize,
    mask: Option<Bitmap>,
}

impl View for Validity {
    type V = Seq<bool>;

    closed spec fn view(&self) -> Seq<bool> {
        match self.mask {
            None => Seq::new(self.len as nat, |i: int| true),
            Some(bitmap) => bitmap@,
        }
    }
}

impl Validity {
    /// The representation invariant: an allocated mask has one bit per row.
    #[verifier::type_invariant]
    pub closed spec fn wf(&self) -> bool {
        match self.mask {
            None => true,
            Some(bitmap) => bitmap.wf() && bitmap@.len() == self.len,
        }
    }

    /// Whether the mask is held without storage, which stands for "every row
    /// is valid".
    pub closed spec fn spec_is_all_valid(&self) -> bool {
        self.mask.is_none()
    }

    /// A mask of `len` rows, all valid, without storage.
    pub fn new_all_valid(len: usize) -> (r: Validity)
        ensures
            r.wf(),
            r.spec_is_all_valid(),
            r@ == Seq::new(len as nat, |i: int| true),
    {
        Validity { len, mask: None }
    }

    /// A mask of `len` rows, all null.
    pub fn new_all_invalid(len: usize) -> (r: Validity)
        ensures
            r.wf(),
            r@ == Seq::new(len as nat, |i: int| false),
    {
        Validity { len, mask: Some(Bitmap::new_with_all_false(len)) }
    }

    /// The mask whose rows are the values of `bitmap`.
    pub fn from_bitmap(bitmap: Bitmap) -> (r: Validity)
        ensures
            r.wf(),
            r@ == bitmap@,
    {
        proof {
            use_type_invariant(&bitmap);
        }
        Validity { len: bitmap.len(), mask: Some(bitmap) }
    }

    /// The number of rows.
    pub fn len(&self) -> (n: usize)
        ensures
            n == self@.len(),
    {
        proof {
            use_type_invariant(self);
        }
        self.len
    }

    /// Whether the mask is held without storage.
    pub fn is_all_valid(&self) -> (b: bool)
        ensures
            b == self.spec_is_all_valid(),
            b ==> forall|i: int| 0 <= i < self@.len() ==> self@[i],
    {
        self.mask.is_none()
    }

    /// Whether row `idx` holds a value.
    pub fn is_valid(&self, idx: usize) -> (b: bool)
        requires
            idx < self@.len(),
        ensures
            b == self@[idx as int],
    {
        proof {
            use_type_invariant(self);
        }
        match &self.mask {
            None => true,
            Some(bitmap) => bitmap.value(idx),
        }
    }

    /// Whether row `idx` holds a value, or `None` when there is no such row.
    pub fn get(&self, idx: usize) -> (r: Option<bool>)
        ensures
            r == if idx < self@.len() {
                Some(self@[idx as int])
            } else {
                None
            },
    {
        if idx < self.len() {
            Some(self.is_valid(idx))
        } else {
            None
        }
    }

    /// Sets whether row `idx` holds a value. The packed bits are allocated
    /// only when a row of a storage-free mask is made null.
    pub fn set(&mut self, idx: usize, valid: bool)
        requires
            idx < old(self)@.len(),
        ensures
            final(self).wf(),
            final(self)@ == old(self)@.update(idx as int, valid),
            old(self).spec_is_all_valid() && valid ==> final(self).spec_is_all_valid(),
    {
        proof {
            use_type_invariant(&*self);
        }
        let ghost before = self@;
        let mut taken = Validity::new_all_valid(0);
        core::mem::swap(self, &mut taken);
        let Validity { len, mask } = taken;
        let bitmap = match mask {
            None => {
                if valid {
                    let r = Validity { len, mask: None };
                    assert(r@ =~= before.update(idx as int, valid));
                    *self = r;
                    return ;
                }
                Bitmap::new_with_all_true(len)
            },
            Some(bitmap) => bitmap,
        };
        let mut bitmap = bitmap;
        assert(bitmap@ =~= before);
        bitmap.set_unchecked(idx, valid);
        *self = Validity { len, mask: Some(bitmap) };
    }

    /// Marks row `idx` as holding a value.
    pub fn set_valid(&mut self, idx: usize)
        requires
            idx < old(self)@.len(),
        ensures
            final(self).wf(),
            final(self)@ == old(self)@.update(idx as int, true),
    {
        self.set(idx, true)
    }

    /// Marks row `idx` as null.
    pub fn set_invalid(&mut self, idx: usize)
        requires
            idx < old(self)@.len(),
        ensures
            final(self).wf(),
            final(self)@ == old(self)@.update(idx as int, false),
    {
        self.set(idx, false)
    }

    /// The number of rows that hold a value.
    pub fn count_valid(&self) -> (n: usize)
        ensures
            n == count_true(self@),
    {
        proof {
            use_type_invariant(self);
        }
        match &self.mask {
            None => {
                proof {
                    lemma_count_all_true(self.len as nat);
                }
                self.len
            },
            Some(bitmap) => bitmap.count_trues(),
        }
    }

    /// The rows as a vector of booleans.
    pub fn to_vec(&self) -> (r: Vec<bool>)
        ensures
            r@ == self@,
    {
        let mut out: Vec<bool> = Vec::new();
        let mut i: usize = 0;
        while i < self.len()
            invariant
                i <= self@.len(),
                out@ == self@.take(i as int),
            decreases self@.len() - i,
        {
            let b = self.is_valid(i);
            out.push(b);
            assert(self@.take(i as int).push(b) =~= self@.take(i + 1));
            i += 1;
        }
        assert(self@.take(self@.len() as int) =~= self@);
        out
    }

    /// The row-wise conjunction of two masks of equal length: a row is valid
    /// where it is valid in both. The result is storage-free when both
    /// inputs are. Fails with `LengthMismatch` when the lengths differ.
    pub fn and(&self, other: &Validity) -> (r: Result<Validity, RayexecError>)
        ensures
            match r {
                Ok(v) => {
                    &&& v.wf()
                    &&& self@.len() == other@.len()
                    &&& v@.len() == self@.len()
                    &&& forall|i: int| 0 <= i < v@.len() ==> v@[i] == (self@[i] && other@[i])
                    &&& self.spec_is_all_valid() && other.spec_is_all_valid()
                        ==> v.spec_is_all_valid()
                },
                Err(e) => self@.len() != other@.len() && e == (RayexecError::LengthMismatch {
                    left: self@.len() as usize,
                    right: other@.len() as usize,
                }),
            },
    {
        proof {
            use_type_invariant(self);
            use_type_invariant(other);
        }
        if self.len != other.len {
            return Err(RayexecError::LengthMismatch { left: self.len, right: other.len });
        }
        match (&self.mask, &other.mask) {
            (None, None) => Ok(Validity::new_all_valid(self.len)),
            (Some(_), None) => Ok(self.clone()),
            (None, Some(_)) => Ok(other.clone()),
            (Some(a), Some(b)) => {
                match a.bit_and(b) {
                    Ok(bitmap) => Ok(Validity::from_bitmap(bitmap)),
                    Err(e) => Err(e),
                }
            },
        }
    }

    /// The mask seen through `selection`: row `i` of the result is row
    /// `selection[i]` of this mask. Every index must be a row of this mask.
    pub fn select(&self, selection: &SelectionVector) -> (r: Validity)
        requires
            in_bounds(selection@, self@.len()),
        ensures
            r.wf(),
            r@ == Seq::new(selection@.len(), |i: int| self@[selection@[i] as int]),
            self.spec_is_all_valid() ==> r.spec_is_all_valid(),
    {
        proof {
            use_type_invariant(self);
        }
        match &self.mask {
            None => {
                let r = Validity::new_all_valid(selection.len());
                assert(r@ =~= Seq::new(selection@.len(), |i: int| self@[selection@[i] as int]));
                r
            },
            Some(bitmap) => {
                let mut out = Bitmap::new_with_all_false(0);
                let mut i: usize = 0;
                while i < selection.len()
                    invariant
                        in_bounds(selection@, bitmap@.len()),
                        i <= selection@.len(),
                        out.wf(),
                        out@.len() == i,
                        forall|j: int| 0 <= j < i ==> out@[j] == bitmap@[selection@[j] as int],
                    decreases selection@.len() - i,
                {
                    let row = selection.get(i);
                    assert(selection@[i as int] < bitmap@.len());
                    out.push(bitmap.value(row));
                    i += 1;
                }
                let r = Validity::from_bitmap(out);
                assert(r@ =~= Seq::new(selection@.len(), |i: int| self@[selection@[i] as int]));
                r
            },
        }
    }
}

impl Clone for Validity {
    /// A copy of the mask, storage-free when this one is.
    fn clone(&self) -> (r: Validity)
        ensures
            r.wf(),
            r@ == self@,
            self.spec_is_all_valid() ==> r.spec_is_all_valid(),
    {
        proof {
            use_type_invariant(self);
        }
        match &self.mask {
            None => Validity::new_all_valid(self.len),
            Some(bitmap) => Validity::from_bitmap(bitmap.clone()),
        }
    }
}

/// Every row of an all-`true` sequence counts.
pub proof fn lemma_count_all_true(len: nat)
    ensures
        count_true(Seq::new(len, |i: int| true)) == len,
    decreases len,
{
    if len > 0 {
        lemma_count_all_true((len - 1) as nat);
        assert(Seq::new((len - 1) as nat, |i: int| true).push(true) =~= Seq::new(
            len,
            |i: int| true,
        ));
        lemma_count_true_push(Seq::new((len - 1) as nat, |i: int| true), true);
    }
}

} // verus!
