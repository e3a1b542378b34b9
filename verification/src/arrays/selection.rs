//! Logical row to physical row remapping.

use vstd::prelude::*;

use crate::error::RayexecError;

verus! {

/// The composition of two selections: row `i` of the result is the row of
/// `inner` that row `i` of `outer` points at.
pub open spec fn compose(inner: Seq<usize>, outer: Seq<usize>) -> Seq<usize>
    recommends
        in_bounds(outer, inner.len()),
{
    Seq::new(outer.len(), |i: int| inner[outer[i] as int])
}

/// Whether every index of `sel` is below `limit`.
pub open spec fn in_bounds(sel: Seq<usize>, limit: nat) -> bool {
    forall|i: int| 0 <= i < sel.len() ==> (#[trigger] sel[i]) < limit
}

/// The first position of `sel` whose index is not below `limit`.
pub open spec fn first_out_of_bounds(sel: Seq<usize>, limit: nat) -> int
    decreases sel.len(),
{
    if sel.len() == 0 {
        0
    } else if sel[0] >= limit {
        0
    } else {
        1 + first_out_of_bounds(sel.drop_first(), limit)
    }
}

/// `first_out_of_bounds` is the least position out of bounds, or the length
/// when there is none.
pub proof fn lemma_first_out_of_bounds(sel: Seq<usize>, limit: nat)
    ensures
        0 <= first_out_of_bounds(sel, limit) <= sel.len(),
        forall|i: int| 0 <= i < first_out_of_bounds(sel, limit) ==> (#[trigger] sel[i]) < limit,
        first_out_of_bounds(sel, limit) < sel.len() ==> sel[first_out_of_bounds(sel, limit)]
            >= limit,
        in_bounds(sel, limit) <==> first_out_of_bounds(sel, limit) == sel.len(),
    decreases sel.len(),
{
    if sel.len() != 0 && sel[0] < limit {
        let rest = sel.drop_first();
        lemma_first_out_of_bounds(rest, limit);
        let f = first_out_of_bounds(rest, limit);
        assert forall|i: int| 0 <= i < f + 1 implies (#[trigger] sel[i]) < limit by {
            if i > 0 {
                assert(rest[i - 1] == sel[i]);
            }
        }
        if f < rest.len() {
            assert(rest[f] == sel[f + 1]);
        }
        if in_bounds(sel, limit) {
            assert forall|i: int| 0 <= i < rest.len() implies (#[trigger] rest[i]) < limit by {
                assert(rest[i] == sel[i + 1]);
            }
        }
    }
}

/// An ordered sequence of physical row indices. Indices may repeat and come
/// in any order; the length of the sequence is the logical length of what it
/// selects from.
#[derive(Debug, PartialEq, Eq)]
pub struct SelectionVector {
    indices: Vec<usize>,
}

impl View for SelectionVector {
    type V = Seq<usize>;

    closed spec fn view(&self) -> Seq<usize> {
        self.indices@
    }
}

impl SelectionVector {
    /// The selection with no rows.
    pub fn empty() -> (r: SelectionVector)
        ensures
            r@ == Seq::<usize>::empty(),
    {
        SelectionVector { indices: Vec::new() }
    }

    /// The selection that holds `indices`, in order.
    pub fn from_vec(indices: Vec<usize>) -> (r: SelectionVector)
        ensures
            r@ == indices@,
    {
        SelectionVector { indices }
    }

    /// The identity selection over the rows `start..end`.
    pub fn with_range(range: core::ops::Range<usize>) -> (r: SelectionVector)
        ensures
            r@ == Seq::new(
                if range.start <= range.end {
                    (range.end - range.start) as nat
                } else {
                    0
                },
                |i: int| (range.start + i) as usize,
            ),
    {
        let mut indices: Vec<usize> = Vec::new();
        let mut row: usize = range.start;
        while row < range.end
            invariant
                range.start <= row,
                range.start <= range.end ==> row <= range.end,
                range.start > range.end ==> row == range.start,
                indices.len() == row - range.start,
                forall|j: int| 0 <= j < indices.len() ==> indices[j] == range.start + j,
            decreases range.end - row,
        {
            indices.push(row);
            row += 1;
        }
        let r = SelectionVector { indices };
        assert(r@ =~= Seq::new(
            if range.start <= range.end {
                (range.end - range.start) as nat
            } else {
                0
            },
            |i: int| (range.start + i) as usize,
        ));
        r
    }

    /// The selection of `len` rows that all point at row `location`.
    pub fn repeated(len: usize, location: usize) -> (r: SelectionVector)
        ensures
            r@ == Seq::new(len as nat, |i: int| location),
    {
        let mut indices: Vec<usize> = Vec::new();
        let mut i: usize = 0;
        while i < len
            invariant
                i <= len,
                indices.len() == i,
                forall|j: int| 0 <= j < i ==> indices[j] == location,
            decreases len - i,
        {
            indices.push(location);
            i += 1;
        }
        let r = SelectionVector { indices };
        assert(r@ =~= Seq::new(len as nat, |i: int| location));
        r
    }

    /// The number of rows selected.
    pub fn num_rows(&self) -> (n: usize)
        ensures
            n == self@.len(),
    {
        self.indices.len()
    }

    /// The number of rows selected.
    pub fn len(&self) -> (n: usize)
        ensures
            n == self@.len(),
    {
        self.indices.len()
    }

    /// Whether no rows are selected.
    pub fn is_empty(&self) -> (b: bool)
        ensures
            b == (self@.len() == 0),
    {
        self.indices.len() == 0
    }

    /// The physical row that logical row `idx` points at.
    pub fn get(&self, idx: usize) -> (r: usize)
        requires
            idx < self@.len(),
        ensures
            r == self@[idx as int],
    {
        self.indices[idx]
    }

    /// The physical row that logical row `idx` points at, or `None` when
    /// `idx` is not a row of the selection.
    pub fn get_opt(&self, idx: usize) -> (r: Option<usize>)
        ensures
            r == if idx < self@.len() {
                Some(self@[idx as int])
            } else {
                None
            },
    {
        if idx < self.indices.len() {
            Some(self.indices[idx])
        } else {
            None
        }
    }

    /// The indices as a vector.
    pub fn to_vec(&self) -> (r: Vec<usize>)
        ensures
            r@ == self@,
    {
        let mut out: Vec<usize> = Vec::new();
        let mut i: usize = 0;
        while i < self.indices.len()
            invariant
                i <= self.indices.len(),
                out@ == self.indices@.take(i as int),
            decreases self.indices.len() - i,
        {
            out.push(self.indices[i]);
            assert(self.indices@.take(i as int).push(self.indices[i as int])
                =~= self.indices@.take(i + 1));
            i += 1;
        }
        assert(self.indices@.take(self.indices.len() as int) =~= self.indices@);
        out
    }

    /// Whether every index is below `limit`.
    pub fn all_below(&self, limit: usize) -> (b: bool)
        ensures
            b == in_bounds(self@, limit as nat),
    {
        let r = self.first_at_or_above(limit);
        proof {
            lemma_first_out_of_bounds(self@, limit as nat);
        }
        r.is_none()
    }

    /// The first position whose index is not below `limit`, if there is one.
    pub fn first_at_or_above(&self, limit: usize) -> (r: Option<usize>)
        ensures
            match r {
                Some(pos) => pos == first_out_of_bounds(self@, limit as nat) && pos < self@.len(),
                None => first_out_of_bounds(self@, limit as nat) == self@.len(),
            },
    {
        proof {
            lemma_first_out_of_bounds(self@, limit as nat);
        }
        let mut i: usize = 0;
        while i < self.indices.len()
            invariant
                i <= self.indices.len(),
                forall|j: int| 0 <= j < i ==> (#[trigger] self.indices@[j]) < limit,
                0 <= first_out_of_bounds(self@, limit as nat) <= self@.len(),
                forall|j: int|
                    0 <= j < first_out_of_bounds(self@, limit as nat) ==> (#[trigger] self@[j])
                        < limit,
                first_out_of_bounds(self@, limit as nat) < self@.len() ==> self@[first_out_of_bounds(
                    self@,
                    limit as nat,
                )] >= limit,
            decreases self.indices.len() - i,
        {
            if self.indices[i] >= limit {
                return Some(i);
            }
            i += 1;
        }
        None
    }

    /// The rows `offset .. offset + count` of the selection.
    pub fn slice_unchecked(&self, offset: usize, count: usize) -> (r: SelectionVector)
        requires
            offset + count <= self@.len(),
        ensures
            r@ == self@.subrange(offset as int, offset + count),
    {
        let mut out: Vec<usize> = Vec::new();
        let mut i: usize = 0;
        while i < count
            invariant
                offset + count <= self.indices.len(),
                i <= count,
                out.len() == i,
                forall|j: int| 0 <= j < i ==> out[j] == self.indices[offset + j],
            decreases count - i,
        {
            out.push(self.indices[offset + i]);
            i += 1;
        }
        let r = SelectionVector { indices: out };
        assert(r@ =~= self@.subrange(offset as int, offset + count));
        r
    }

    /// The rows `range` of the selection, or `OutOfBounds` when the range
    /// does not lie within it.
    pub fn slice(&self, range: core::ops::Range<usize>) -> (r: Result<
        SelectionVector,
        RayexecError,
    >)
        ensures
            match r {
                Ok(s) => range.start <= range.end <= self@.len() && s@ == self@.subrange(
                    range.start as int,
                    range.end as int,
                ),
                Err(e) => !(range.start <= range.end <= self@.len()) && e
                    == (RayexecError::OutOfBounds { index: range.end, len: self@.len() as usize }),
            },
    {
        if range.start > range.end || range.end > self.indices.len() {
            return Err(RayexecError::OutOfBounds { index: range.end, len: self.indices.len() });
        }
        Ok(self.slice_unchecked(range.start, range.end - range.start))
    }

    /// Applies `selection` on top of this one: row `i` of the result is
    /// `self[selection[i]]`. Every index of `selection` must be a row of this
    /// selection.
    pub fn select(&self, selection: &SelectionVector) -> (r: SelectionVector)
        requires
            in_bounds(selection@, self@.len()),
        ensures
            r@ == compose(self@, selection@),
    {
        let mut out: Vec<usize> = Vec::new();
        let mut i: usize = 0;
        while i < selection.indices.len()
            invariant
                in_bounds(selection@, self@.len()),
                i <= selection.indices.len(),
                out.len() == i,
                forall|j: int| 0 <= j < i ==> out[j] == self.indices[selection.indices[j] as int],
            decreases selection.indices.len() - i,
        {
            assert(selection@[i as int] < self@.len());
            out.push(self.indices[selection.indices[i]]);
            i += 1;
        }
        let r = SelectionVector { indices: out };
        assert(r@ =~= compose(self@, selection@));
        r
    }

    /// Applies `other` on top of this selection, as [`SelectionVector::select`]
    /// does, or fails with `OutOfBounds` at the first index of `other` that
    /// is not a row of this selection.
    pub fn compose(&self, other: &SelectionVector) -> (r: Result<SelectionVector, RayexecError>)
        ensures
            match r {
                Ok(s) => in_bounds(other@, self@.len()) && s@ == compose(self@, other@),
                Err(e) => {
                    let pos = first_out_of_bounds(other@, self@.len());
                    &&& !in_bounds(other@, self@.len())
                    &&& 0 <= pos < other@.len()
                    &&& e == (RayexecError::OutOfBounds {
                        index: other@[pos],
                        len: self@.len() as usize,
                    })
                },
            },
    {
        proof {
            lemma_first_out_of_bounds(other@, self@.len());
        }
        match other.first_at_or_above(self.indices.len()) {
            Some(pos) => Err(
                RayexecError::OutOfBounds { index: other.indices[pos], len: self.indices.len() },
            ),
            None => Ok(self.select(other)),
        }
    }
}

impl Clone for SelectionVector {
    /// A copy of the selection.
    fn clone(&self) -> (r: SelectionVector)
        ensures
            r@ == self@,
    {
        SelectionVector { indices: self.to_vec() }
    }
}

/// Composing selections is associative: selecting with `c` from the
/// selection of `b` over `a` is selecting from `a` with the selection of `c`
/// over `b`.
pub proof fn lemma_compose_assoc(a: Seq<usize>, b: Seq<usize>, c: Seq<usize>)
    requires
        in_bounds(b, a.len()),
        in_bounds(c, b.len()),
    ensures
        compose(compose(a, b), c) == compose(a, compose(b, c)),
        in_bounds(compose(b, c), a.len()),
{
    assert(compose(compose(a, b), c) =~= compose(a, compose(b, c)));
}

} // verus!
