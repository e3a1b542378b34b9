//! Bookkeeping of the binder: multi-part references and the common table
//! expressions met while a statement is bound.

use vstd::prelude::*;

use crate::arrays::datatype::{DataType, DataTypeView};
use crate::ast::{AstDataType, ObjectReference};
use crate::error::RayexecError;
use crate::markdown_table::{join, spec_join, text_views};
use crate::scope::str_eq;

verus! {

/// Marks a syntax tree whose references are resolved.
#[derive(Debug, Clone, Copy, PartialEq, Eq)]
pub struct Bound;

/// Reference to a common table expression.
#[derive(Debug, Clone, Copy, PartialEq, Eq, Structural)]
pub struct BoundCteReference {
    /// Index into the CTE map.
    pub idx: usize,
}

/// A reference kept as its parts, outermost first.
#[derive(Debug, Clone, PartialEq)]
pub struct BoundItemReference(pub Vec<String>);

/// The texts of `parts`, in order.
pub open spec fn part_views(parts: Seq<String>) -> Seq<Seq<char>> {
    Seq::new(parts.len(), |i: int| parts[i]@)
}

impl View for BoundItemReference {
    type V = Seq<Seq<char>>;

    open spec fn view(&self) -> Seq<Seq<char>> {
        part_views(self.0@)
    }
}

impl BoundItemReference {
    /// The reference with the parts `parts`.
    pub fn from_vec(parts: Vec<String>) -> (r: BoundItemReference)
        ensures
            r@ == part_views(parts@),
    {
        BoundItemReference(parts)
    }

    /// The reference as text: its parts with commas between them.
    pub fn to_text(&self) -> (r: String)
        ensures
            r@ == spec_join(self@, ","@),
    {
        let r = join(self.0.as_slice(), ",");
        assert(text_views(self.0@) =~= self@);
        r
    }

    /// Takes the last part off the reference, or fails with
    /// `EndOfReference` when it has none.
    pub fn pop(&mut self) -> (r: Result<String, RayexecError>)
        ensures
            match r {
                Ok(s) => old(self)@.len() > 0 && s@ == old(self)@.last() && final(self)@ == old(
                    self,
                )@.drop_last(),
                Err(e) => old(self)@.len() == 0 && final(self)@ == old(self)@ && e
                    == (RayexecError::EndOfReference { expected: 1, got: 0 }),
            },
    {
        let ghost before = self@;
        match self.0.pop() {
            Some(s) => {
                assert(self@ =~= before.drop_last());
                Ok(s)
            },
            None => {
                assert(self@ =~= before);
                Err(RayexecError::EndOfReference { expected: 1, got: 0 })
            },
        }
    }

    /// Takes the last two parts off the reference and gives them in the
    /// order they stood in. Fails with `EndOfReference` when it has fewer;
    /// the parts that were there are then gone.
    pub fn pop_2(&mut self) -> (r: Result<[String; 2], RayexecError>)
        ensures
            match r {
                Ok(parts) => {
                    let n = old(self)@.len() as int;
                    &&& n >= 2
                    &&& parts@[0]@ == old(self)@[n - 2]
                    &&& parts@[1]@ == old(self)@[n - 1]
                    &&& final(self)@ == old(self)@.take(n - 2)
                },
                Err(e) => {
                    &&& old(self)@.len() < 2
                    &&& final(self)@.len() == 0
                    &&& e == (RayexecError::EndOfReference {
                        expected: 2,
                        got: old(self)@.len() as usize,
                    })
                },
            },
    {
        let ghost before = self@;
        let a = match self.0.pop() {
            Some(a) => a,
            None => {
                return Err(RayexecError::EndOfReference { expected: 2, got: 0 });
            },
        };
        let b = match self.0.pop() {
            Some(b) => b,
            None => {
                return Err(RayexecError::EndOfReference { expected: 2, got: 1 });
            },
        };
        assert(self@ =~= before.take(before.len() - 2));
        Ok([b, a])
    }

    /// Takes the last three parts off the reference and gives them in the
    /// order they stood in. Fails with `EndOfReference` when it has fewer;
    /// the parts that were there are then gone.
    pub fn pop_3(&mut self) -> (r: Result<[String; 3], RayexecError>)
        ensures
            match r {
                Ok(parts) => {
                    let n = old(self)@.len() as int;
                    &&& n >= 3
                    &&& parts@[0]@ == old(self)@[n - 3]
                    &&& parts@[1]@ == old(self)@[n - 2]
                    &&& parts@[2]@ == old(self)@[n - 1]
                    &&& final(self)@ == old(self)@.take(n - 3)
                },
                Err(e) => {
                    &&& old(self)@.len() < 3
                    &&& final(self)@.len() == 0
                    &&& e == (RayexecError::EndOfReference {
                        expected: 3,
                        got: old(self)@.len() as usize,
                    })
                },
            },
    {
        let ghost before = self@;
        let a = match self.0.pop() {
            Some(a) => a,
            None => {
                return Err(RayexecError::EndOfReference { expected: 3, got: 0 });
            },
        };
        let b = match self.0.pop() {
            Some(b) => b,
            None => {
                return Err(RayexecError::EndOfReference { expected: 3, got: 1 });
            },
        };
        let c = match self.0.pop() {
            Some(c) => c,
            None => {
                return Err(RayexecError::EndOfReference { expected: 3, got: 2 });
            },
        };
        assert(self@ =~= before.take(before.len() - 3));
        Ok([c, b, a])
    }
}

/// The logical type that a written data type stands for.
pub open spec fn spec_exec_datatype(datatype: AstDataType) -> DataTypeView {
    match datatype {
        AstDataType::Varchar(_) => DataTypeView::Utf8,
        AstDataType::SmallInt => DataTypeView::Int16,
        AstDataType::Integer => DataTypeView::Int32,
        AstDataType::BigInt => DataTypeView::Int64,
        AstDataType::Real => DataTypeView::Float32,
        AstDataType::Double => DataTypeView::Float64,
        AstDataType::Bool => DataTypeView::Boolean,
    }
}

/// The logical type that a written data type stands for.
pub fn ast_datatype_to_exec_datatype(datatype: AstDataType) -> (r: DataType)
    ensures
        r@ == spec_exec_datatype(datatype),
{
    match datatype {
        AstDataType::Varchar(_) => DataType::Utf8,
        AstDataType::SmallInt => DataType::Int16,
        AstDataType::Integer => DataType::Int32,
        AstDataType::BigInt => DataType::Int64,
        AstDataType::Real => DataType::Float32,
        AstDataType::Double => DataType::Float64,
        AstDataType::Bool => DataType::Boolean,
    }
}

/// The parts of a written reference as owned strings, as they are written.
pub fn reference_to_strings(reference: ObjectReference) -> (r: Vec<String>)
    ensures
        part_views(r@) == reference@,
{
    let mut out: Vec<String> = Vec::new();
    let mut i: usize = 0;
    while i < reference.0.len()
        invariant
            i <= reference.0.len(),
            out.len() == i,
            forall|j: int| 0 <= j < i ==> out@[j]@ == reference.0@[j].value@,
        decreases reference.0.len() - i,
    {
        out.push(reference.0[i].value.to_owned());
        i += 1;
    }
    assert(part_views(out@) =~= reference@);
    out
}

/// A common table expression that the binder has met.
#[derive(Debug, Clone, PartialEq)]
pub struct BoundCte {
    /// Normalized name for the CTE.
    pub name: String,
    /// Depth this CTE was found at.
    pub depth: usize,
    /// Column aliases taken directly from the ast.
    pub column_aliases: Option<Vec<String>>,
    /// Whether the expression is computed once and kept.
    pub materialized: bool,
}

/// What a search by name reads of a [`BoundCte`].
pub struct BoundCteView {
    pub name: Seq<char>,
    pub depth: usize,
}

/// What a search by name reads of `ctes`, in order.
pub open spec fn cte_views(ctes: Seq<BoundCte>) -> Seq<BoundCteView> {
    Seq::new(ctes.len(), |i: int| BoundCteView { name: ctes[i].name@, depth: ctes[i].depth })
}

/// The search for `name` among the first `upto` expressions, from the last
/// of them down. The search may move up in depth and never back down: an
/// expression deeper than the last one passed belongs to another subquery
/// and ends the search.
pub open spec fn spec_find_cte(
    ctes: Seq<BoundCteView>,
    name: Seq<char>,
    search_depth: usize,
    upto: int,
) -> Option<BoundCteReference>
    decreases upto,
{
    if upto <= 0 || upto > ctes.len() {
        None
    } else {
        let cte = ctes[upto - 1];
        if cte.depth > search_depth {
            None
        } else if cte.name == name {
            Some(BoundCteReference { idx: (upto - 1) as usize })
        } else {
            spec_find_cte(ctes, name, cte.depth, upto - 1)
        }
    }
}

/// What the binder keeps while it binds one statement.
#[derive(Debug, Default, PartialEq)]
pub struct BindData {
    /// How "deep" in the plan are we.
    ///
    /// Incremented everytime we dive into a subquery.
    ///
    /// This provides a primitive form of scoping for CTE resolution.
    pub current_depth: usize,
    /// CTEs are appended to the vec as they're encountered.
    ///
    /// When search for a CTE, the vec should be iterated from right to left to
    /// try to get the "closest" CTE to the reference.
    pub ctes: Vec<BoundCte>,
}

impl BindData {
    /// Try to find a CTE by its normalized name.
    ///
    /// This will iterate the cte vec right to left to find best cte that
    /// matches this name.
    ///
    /// The current depth will be used to determine if a CTE is valid to
    /// reference or not. What this means is as we iterate, we can go "up" in
    /// depth, but never back down, as going back down would mean we're
    /// attempting to resolve a cte from a "sibling" subquery.
    #[verifier::loop_isolation(false)]
    pub fn find_cte(&self, name: &str) -> (r: Option<BoundCteReference>)
        ensures
            r == spec_find_cte(
                cte_views(self.ctes@),
                name@,
                self.current_depth,
                self.ctes@.len() as int,
            ),
    {
        let mut search_depth = self.current_depth;
        let mut upto: usize = self.ctes.len();
        while upto > 0
            invariant
                upto <= self.ctes.len(),
                spec_find_cte(
                    cte_views(self.ctes@),
                    name@,
                    self.current_depth,
                    self.ctes@.len() as int,
                ) == spec_find_cte(cte_views(self.ctes@), name@, search_depth, upto as int),
            decreases upto,
        {
            let cte = &self.ctes[upto - 1];
            if cte.depth > search_depth {
                // We're looking another subquery's CTEs.
                return None;
            }
            if str_eq(cte.name.as_str(), name) {
                // We found a good reference.
                return Some(BoundCteReference { idx: upto - 1 });
            }
            // Otherwise keep searching, even if the cte is up a level.
            search_depth = cte.depth;
            upto -= 1;
        }
        // No CTE found.
        None
    }

    /// Enters a subquery.
    pub fn inc_depth(&mut self)
        requires
            old(self).current_depth < usize::MAX,
        ensures
            final(self).current_depth == old(self).current_depth + 1,
            final(self).ctes == old(self).ctes,
    {
        self.current_depth += 1
    }

    /// Leaves a subquery.
    pub fn dec_depth(&mut self)
        requires
            old(self).current_depth > 0,
        ensures
            final(self).current_depth == old(self).current_depth - 1,
            final(self).ctes == old(self).ctes,
    {
        self.current_depth -= 1;
    }

    /// Push a CTE into bind data, returning a CTE reference.
    pub fn push_cte(&mut self, cte: BoundCte) -> (r: BoundCteReference)
        ensures
            r.idx == old(self).ctes@.len(),
            final(self).ctes@ == old(self).ctes@.push(cte),
            final(self).current_depth == old(self).current_depth,
    {
        let idx = self.ctes.len();
        self.ctes.push(cte);
        BoundCteReference { idx }
    }
}

} // verus!
