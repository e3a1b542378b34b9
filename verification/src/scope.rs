//! The columns that a query's FROM clause brings into scope, and how a
//! column name is resolved against them.

use vstd::prelude::*;
use vstd::string::StringExecFns;

use crate::arrays::storage::bytes_eq;
use crate::error::RayexecError;

verus! {

/// Whether two strings hold the same text.
pub fn str_eq(a: &str, b: &str) -> (r: bool)
    ensures
        r == (a@ == b@),
{
    proof {
        vstd::utf8::encode_utf8_decode_utf8(a@);
        vstd::utf8::encode_utf8_decode_utf8(b@);
    }
    bytes_eq(a.as_bytes(), b.as_bytes())
}

/// Reference to a column in some scope.
#[derive(Debug, Clone, Copy, PartialEq, Eq, PartialOrd, Ord, Structural)]
pub struct ColumnRef {
    /// Scope level for where this column exists.
    ///
    /// 0 indicates "this" scope, 1 indicates a scope one level up, 2 indicates
    /// two levels ups, etc...
    pub scope_level: usize,
    /// Index of the item in the scope.
    pub item_idx: usize,
}

impl ColumnRef {
    /// Try to get the uncorrelated column index.
    ///
    /// An uncorrelated column index is a column index that exists in "this"
    /// scope (scope_level == 0).
    pub fn try_as_uncorrelated(&self) -> (r: Result<usize, RayexecError>)
        ensures
            r == if self.scope_level == 0 {
                Ok::<usize, RayexecError>(self.item_idx)
            } else {
                Err::<usize, RayexecError>(
                    RayexecError::CorrelatedColumn {
                        scope_level: self.scope_level,
                        item_idx: self.item_idx,
                    },
                )
            },
    {
        if self.scope_level != 0 {
            return Err(
                RayexecError::CorrelatedColumn {
                    scope_level: self.scope_level,
                    item_idx: self.item_idx,
                },
            );
        }
        Ok(self.item_idx)
    }
}

/// Reference to a table inside a scope.
#[derive(Debug, Clone, PartialEq, Eq, Hash)]
pub struct TableReference {
    pub database: Option<String>,
    pub schema: Option<String>,
    pub table: String,
}

/// The mathematical value of a [`TableReference`].
pub struct TableReferenceView {
    pub database: Option<Seq<char>>,
    pub schema: Option<Seq<char>>,
    pub table: Seq<char>,
}

impl View for TableReference {
    type V = TableReferenceView;

    open spec fn view(&self) -> TableReferenceView {
        TableReferenceView {
            database: match self.database {
                Some(s) => Some(s@),
                None => None,
            },
            schema: match self.schema {
                Some(s) => Some(s@),
                None => None,
            },
            table: self.table@,
        }
    }
}

/// The view of an optional table reference.
pub open spec fn alias_view(alias: Option<TableReference>) -> Option<TableReferenceView> {
    match alias {
        Some(a) => Some(a@),
        None => None,
    }
}

/// The view of an optional borrowed table reference.
pub open spec fn alias_ref_view(alias: Option<&TableReference>) -> Option<TableReferenceView> {
    match alias {
        Some(a) => Some(a@),
        None => None,
    }
}

impl TableReferenceView {
    /// The reference as text: the database, the schema and the table, one
    /// after the other.
    pub open spec fn text(self) -> Seq<char> {
        (match self.database {
            Some(d) => d,
            None => Seq::empty(),
        }) + (match self.schema {
            Some(s) => s,
            None => Seq::empty(),
        }) + self.table
    }

    /// Whether the reference names the table that `other` names: the table
    /// names are equal, and no qualifier that both give differs.
    pub open spec fn matches(self, other: TableReferenceView) -> bool {
        &&& self.database is Some && other.database is Some ==> self.database == other.database
        &&& self.schema is Some && other.schema is Some ==> self.schema == other.schema
        &&& self.table == other.table
    }
}

impl TableReference {
    /// Whether the reference names the table that `other` names.
    pub fn matches(&self, other: &TableReference) -> (r: bool)
        ensures
            r == self@.matches(other@),
    {
        match (&self.database, &other.database) {
            (Some(a), Some(b)) => {
                if !str_eq(a.as_str(), b.as_str()) {
                    return false;
                }
            },
            _ => {},
        }
        match (&self.schema, &other.schema) {
            (Some(a), Some(b)) => {
                if !str_eq(a.as_str(), b.as_str()) {
                    return false;
                }
            },
            _ => {},
        }
        str_eq(self.table.as_str(), other.table.as_str())
    }

    /// The reference as text: the database, the schema and the table, one
    /// after the other.
    pub fn to_text(&self) -> (r: String)
        ensures
            r@ == self@.text(),
    {
        let mut out = String::from_str("");
        proof {
            reveal_strlit("");
        }
        if let Some(database) = &self.database {
            out.append(database.as_str());
        }
        if let Some(schema) = &self.schema {
            out.append(schema.as_str());
        }
        out.append(self.table.as_str());
        assert(out@ =~= self@.text());
        out
    }

    /// Whether the two references are equal part by part.
    pub fn same(&self, other: &TableReference) -> (r: bool)
        ensures
            r == (self@ == other@),
    {
        let database = match (&self.database, &other.database) {
            (Some(a), Some(b)) => str_eq(a.as_str(), b.as_str()),
            (None, None) => true,
            _ => false,
        };
        let schema = match (&self.schema, &other.schema) {
            (Some(a), Some(b)) => str_eq(a.as_str(), b.as_str()),
            (None, None) => true,
            _ => false,
        };
        database && schema && str_eq(self.table.as_str(), other.table.as_str())
    }
}

/// An item in a scope with an optional alias.
#[derive(Debug, Clone, PartialEq)]
pub struct ScopeColumn {
    /// Alias of the table containing this column, either user provided or the
    /// table name itself.
    ///
    /// May be None in the case of a column being added through the use of a
    /// USING join constraint. In which case, the only way to reference the item
    /// in the scope is through its unqualified name.
    pub alias: Option<TableReference>,
    /// Name of the column.
    pub column: String,
}

/// The mathematical value of a [`ScopeColumn`].
pub struct ScopeColumnView {
    pub alias: Option<TableReferenceView>,
    pub column: Seq<char>,
}

impl View for ScopeColumn {
    type V = ScopeColumnView;

    open spec fn view(&self) -> ScopeColumnView {
        ScopeColumnView {
            alias: match self.alias {
                Some(a) => Some(a@),
                None => None,
            },
            column: self.column@,
        }
    }
}

impl ScopeColumnView {
    /// Whether the reference `alias`.`column` names this item: the column
    /// names are equal, and where a table is named, the item has an alias
    /// that the table matches.
    pub open spec fn named_by(self, alias: Option<TableReferenceView>, column: Seq<char>) -> bool {
        match alias {
            Some(alias) => self.alias is Some && alias.matches(self.alias->0) && self.column
                == column,
            None => self.column == column,
        }
    }
}

/// Provides a scope items introduced in the FROM clause of a query.
#[derive(Debug, Clone, PartialEq)]
pub struct Scope {
    /// Items in scope.
    pub items: Vec<ScopeColumn>,
}

/// The views of `items`, in order.
pub open spec fn column_views(items: Seq<ScopeColumn>) -> Seq<ScopeColumnView> {
    Seq::new(items.len(), |i: int| items[i]@)
}

impl View for Scope {
    type V = Seq<ScopeColumnView>;

    open spec fn view(&self) -> Seq<ScopeColumnView> {
        column_views(self.items@)
    }
}

/// The first position from `from` on of an item of `items` that
/// `alias`.`column` names, or the length when there is none.
pub open spec fn first_named(
    items: Seq<ScopeColumnView>,
    alias: Option<TableReferenceView>,
    column: Seq<char>,
    from: int,
) -> int
    decreases items.len() - from,
{
    if from >= items.len() {
        items.len() as int
    } else if items[from].named_by(alias, column) {
        from
    } else {
        first_named(items, alias, column, from + 1)
    }
}

/// `first_named` is the least position that is named, at or after `from`.
pub proof fn lemma_first_named(
    items: Seq<ScopeColumnView>,
    alias: Option<TableReferenceView>,
    column: Seq<char>,
    from: int,
)
    requires
        0 <= from <= items.len(),
    ensures
        from <= first_named(items, alias, column, from) <= items.len(),
        forall|i: int|
            from <= i < first_named(items, alias, column, from) ==> !(#[trigger] items[i]).named_by(
                alias,
                column,
            ),
        first_named(items, alias, column, from) < items.len() ==> items[first_named(
            items,
            alias,
            column,
            from,
        )].named_by(alias, column),
    decreases items.len() - from,
{
    if from < items.len() && !items[from].named_by(alias, column) {
        lemma_first_named(items, alias, column, from + 1);
    }
}

/// What looking a column up in one scope gives: nothing where no item is
/// named, the position of the item where exactly one is, and
/// `AmbiguousColumn` with the first two positions where more are.
pub open spec fn spec_column_index(
    items: Seq<ScopeColumnView>,
    alias: Option<TableReferenceView>,
    column: Seq<char>,
) -> Result<Option<usize>, RayexecError> {
    let first = first_named(items, alias, column, 0);
    if first >= items.len() {
        Ok(None)
    } else {
        let second = first_named(items, alias, column, first + 1);
        if second >= items.len() {
            Ok(Some(first as usize))
        } else {
            Err(RayexecError::AmbiguousColumn { first: first as usize, second: second as usize })
        }
    }
}

/// What resolving a column against a scope and its outer scopes gives: the
/// item of the first scope, innermost first, that holds the column; an
/// error where that scope holds it twice; nothing where no scope holds it.
pub open spec fn spec_resolve_column(
    this: Seq<ScopeColumnView>,
    outer: Seq<Seq<ScopeColumnView>>,
    alias: Option<TableReferenceView>,
    column: Seq<char>,
) -> Result<Option<ColumnRef>, RayexecError> {
    match spec_column_index(this, alias, column) {
        Err(e) => Err(e),
        Ok(Some(idx)) => Ok(Some(ColumnRef { scope_level: 0, item_idx: idx })),
        Ok(None) => spec_resolve_outer(outer, alias, column, 0),
    }
}

/// Resolution against the outer scopes from level `from` on.
pub open spec fn spec_resolve_outer(
    outer: Seq<Seq<ScopeColumnView>>,
    alias: Option<TableReferenceView>,
    column: Seq<char>,
    from: int,
) -> Result<Option<ColumnRef>, RayexecError>
    decreases outer.len() - from,
{
    if from < 0 || from >= outer.len() {
        Ok(None)
    } else {
        match spec_column_index(outer[from], alias, column) {
            Err(e) => Err(e),
            Ok(Some(idx)) => Ok(Some(ColumnRef { scope_level: (from + 1) as usize, item_idx: idx })),
            Ok(None) => spec_resolve_outer(outer, alias, column, from + 1),
        }
    }
}

/// The views of `scopes`, in order.
pub open spec fn scope_views(scopes: Seq<Scope>) -> Seq<Seq<ScopeColumnView>> {
    Seq::new(scopes.len(), |i: int| scopes[i]@)
}

/// The first pair of positions, in the order of the right scope and then of
/// the left one, of two items that hold the same table alias; `None` where
/// the scopes share no alias.
pub open spec fn first_shared_alias(
    left: Seq<ScopeColumnView>,
    right: Seq<ScopeColumnView>,
    from: int,
) -> Option<(int, int)>
    decreases right.len() - from,
{
    if from < 0 || from >= right.len() {
        None
    } else {
        let hit = first_with_alias(left, right[from].alias, 0);
        if right[from].alias is Some && hit < left.len() {
            Some((hit, from))
        } else {
            first_shared_alias(left, right, from + 1)
        }
    }
}

/// The first position from `from` on of an item of `items` whose alias is
/// `alias`, or the length when there is none.
pub open spec fn first_with_alias(
    items: Seq<ScopeColumnView>,
    alias: Option<TableReferenceView>,
    from: int,
) -> int
    decreases items.len() - from,
{
    if from < 0 || from >= items.len() {
        items.len() as int
    } else if items[from].alias == alias {
        from
    } else {
        first_with_alias(items, alias, from + 1)
    }
}

impl Scope {
    /// Create a new empty scope.
    pub fn empty() -> (r: Scope)
        ensures
            r@ == Seq::<ScopeColumnView>::empty(),
    {
        let r = Scope { items: Vec::new() };
        assert(r@ =~= Seq::<ScopeColumnView>::empty());
        r
    }

    /// Create a new scope with the given columns for a table.
    pub fn with_columns(alias: Option<TableReference>, columns: Vec<String>) -> (r: Scope)
        ensures
            r@ == Seq::new(
                columns@.len(),
                |i: int|
                    ScopeColumnView {
                        alias: alias_view(alias),
                        column: columns@[i]@,
                    },
            ),
    {
        let mut scope = Scope::empty();
        scope.add_columns(alias, columns);
        assert(scope@ =~= Seq::new(
            columns@.len(),
            |i: int|
                ScopeColumnView {
                    alias: alias_view(alias),
                    column: columns@[i]@,
                },
        ));
        scope
    }

    /// Add columns to this scope for a table with the given alias.
    pub fn add_columns(&mut self, alias: Option<TableReference>, columns: Vec<String>)
        ensures
            final(self)@ == old(self)@ + Seq::new(
                columns@.len(),
                |i: int|
                    ScopeColumnView {
                        alias: alias_view(alias),
                        column: columns@[i]@,
                    },
            ),
    {
        let ghost before = self@;
        let ghost wanted: Option<TableReferenceView> = alias_view(alias);
        let mut i: usize = 0;
        while i < columns.len()
            invariant
                i <= columns.len(),
                wanted == alias_view(alias),
                self@.len() == before.len() + i,
                forall|j: int| 0 <= j < before.len() ==> self@[j] == before[j],
                forall|j: int|
                    0 <= j < i ==> self@[before.len() + j] == (ScopeColumnView {
                        alias: wanted,
                        column: columns@[j]@,
                    }),
            decreases columns.len() - i,
        {
            let ghost prior = self@;
            let item_alias = match &alias {
                Some(a) => Some(
                    TableReference {
                        database: match &a.database {
                            Some(s) => Some(s.clone()),
                            None => None,
                        },
                        schema: match &a.schema {
                            Some(s) => Some(s.clone()),
                            None => None,
                        },
                        table: a.table.clone(),
                    },
                ),
                None => None,
            };
            let item = ScopeColumn { alias: item_alias, column: columns[i].clone() };
            assert(item@ == (ScopeColumnView { alias: wanted, column: columns@[i as int]@ }));
            self.items.push(item);
            assert(self@ =~= prior.push(item@));
            i += 1;
        }
        assert(self@ =~= before + Seq::new(
            columns@.len(),
            |i: int| ScopeColumnView { alias: wanted, column: columns@[i]@ },
        ));
    }

    /// Try to resolve a column.
    ///
    /// First searches this scope, then attempts to find the column in an outer
    /// scope.
    ///
    /// Outer scopes are search left to right, with the left-most scope
    /// representing the inner-most scope.
    ///
    /// Returns an error if the column is ambigious. Returns None if there
    /// exists no columns.
    #[verifier::loop_isolation(false)]
    pub fn resolve_column(
        &self,
        outer: &[Scope],
        table: Option<&TableReference>,
        column: &str,
    ) -> (r: Result<Option<ColumnRef>, RayexecError>)
        ensures
            r == spec_resolve_column(
                self@,
                scope_views(outer@),
                alias_ref_view(table),
                column@,
            ),
    {
        let ghost alias: Option<TableReferenceView> = alias_ref_view(table);
        match self.column_index(table, column) {
            Err(e) => {
                return Err(e);
            },
            Ok(Some(idx)) => {
                return Ok(Some(ColumnRef { scope_level: 0, item_idx: idx }));
            },
            Ok(None) => {},
        }
        let mut level: usize = 0;
        while level < outer.len()
            invariant
                level <= outer.len(),
                alias == alias_ref_view(table),
                spec_resolve_outer(scope_views(outer@), alias, column@, 0) == spec_resolve_outer(
                    scope_views(outer@),
                    alias,
                    column@,
                    level as int,
                ),
            decreases outer.len() - level,
        {
            assert(scope_views(outer@)[level as int] == outer@[level as int]@);
            match outer[level].column_index(table, column) {
                Err(e) => {
                    return Err(e);
                },
                Ok(Some(idx)) => {
                    return Ok(Some(ColumnRef { scope_level: level + 1, item_idx: idx }));
                },
                Ok(None) => {},
            }
            level += 1;
        }
        Ok(None)
    }

    /// The items, for changing them in place.
    pub fn iter_mut(&mut self) -> (r: &mut Vec<ScopeColumn>)
        ensures
            *r == old(self).items,
            final(self).items == *final(r),
    {
        &mut self.items
    }

    /// Find the index of a column with the given name.
    ///
    /// Errors if multiple columns with the same name are found.
    pub fn column_index(&self, alias: Option<&TableReference>, column: &str) -> (r: Result<
        Option<usize>,
        RayexecError,
    >)
        ensures
            r == spec_column_index(
                self@,
                alias_ref_view(alias),
                column@,
            ),
    {
        let ghost wanted: Option<TableReferenceView> = alias_ref_view(alias);
        let first = self.position_named(alias, column, 0);
        if first >= self.items.len() {
            return Ok(None);
        }
        // Check to make sure there's no other columns with this name in the
        // scope.
        let second = self.position_named(alias, column, first + 1);
        if second >= self.items.len() {
            return Ok(Some(first));
        }
        Err(RayexecError::AmbiguousColumn { first, second })
    }

    /// The first position from `from` on of an item that `alias`.`column`
    /// names, or the number of items when there is none.
    fn position_named(&self, alias: Option<&TableReference>, column: &str, from: usize) -> (r:
        usize)
        requires
            from <= self@.len(),
        ensures
            r == first_named(
                self@,
                alias_ref_view(alias),
                column@,
                from as int,
            ),
            from <= r <= self@.len(),
    {
        let ghost wanted: Option<TableReferenceView> = alias_ref_view(alias);
        proof {
            lemma_first_named(self@, wanted, column@, from as int);
        }
        let mut i: usize = from;
        while i < self.items.len()
            invariant
                from <= i <= self.items.len(),
                wanted == alias_ref_view(alias),
                first_named(self@, wanted, column@, from as int) == first_named(
                    self@,
                    wanted,
                    column@,
                    i as int,
                ),
            decreases self.items.len() - i,
        {
            let item = &self.items[i];
            assert(self@[i as int] == item@);
            let named = match (alias, &item.alias) {
                (Some(alias), Some(item_alias)) => alias.matches(item_alias) && str_eq(
                    item.column.as_str(),
                    column,
                ),
                (Some(_), None) => false,
                (None, _) => str_eq(item.column.as_str(), column),
            };
            if named {
                return i;
            }
            i += 1;
        }
        i
    }

    /// Merge another scope into this one.
    ///
    /// Errors on duplicate table aliases.
    pub fn merge(self, right: Scope) -> (r: Result<Scope, RayexecError>)
        ensures
            match r {
                Ok(merged) => first_shared_alias(self@, right@, 0) is None && merged@ == self@
                    + right@,
                Err(e) => match first_shared_alias(self@, right@, 0) {
                    Some((l, r)) => e == (RayexecError::DuplicateTable {
                        left: l as usize,
                        right: r as usize,
                    }),
                    None => false,
                },
            },
    {
        let mut k: usize = 0;
        while k < right.items.len()
            invariant
                k <= right.items.len(),
                first_shared_alias(self@, right@, 0) == first_shared_alias(self@, right@, k as int),
            decreases right.items.len() - k,
        {
            assert(right@[k as int] == right.items@[k as int]@);
            match &right.items[k].alias {
                Some(alias) => {
                    let hit = self.position_with_alias(alias);
                    if hit < self.items.len() {
                        return Err(RayexecError::DuplicateTable { left: hit, right: k });
                    }
                },
                None => {
                    proof {
                        lemma_first_with_alias(self@, None, 0);
                    }
                },
            }
            k += 1;
        }
        let Scope { items: mut items } = self;
        let ghost left = items@;
        let Scope { items: mut more } = right;
        let ghost added = more@;
        items.append(&mut more);
        let merged = Scope { items };
        assert(merged@ =~= column_views(left) + column_views(added));
        Ok(merged)
    }

    /// The first position of an item whose alias is `alias`, or the number
    /// of items when there is none.
    fn position_with_alias(&self, alias: &TableReference) -> (r: usize)
        ensures
            r == first_with_alias(self@, Some(alias@), 0),
            r <= self@.len(),
    {
        let mut i: usize = 0;
        while i < self.items.len()
            invariant
                i <= self.items.len(),
                first_with_alias(self@, Some(alias@), 0) == first_with_alias(
                    self@,
                    Some(alias@),
                    i as int,
                ),
            decreases self.items.len() - i,
        {
            assert(self@[i as int] == self.items@[i as int]@);
            let same = match &self.items[i].alias {
                Some(a) => a.same(alias),
                None => false,
            };
            if same {
                return i;
            }
            i += 1;
        }
        i
    }

    /// The number of columns in scope.
    pub fn num_columns(&self) -> (n: usize)
        ensures
            n == self@.len(),
    {
        self.items.len()
    }

    /// The names of the columns, in order.
    pub fn column_name_iter(&self) -> (r: Vec<&str>)
        ensures
            r@.len() == self@.len(),
            forall|i: int| 0 <= i < r@.len() ==> r@[i]@ == self@[i].column,
    {
        let mut out: Vec<&str> = Vec::new();
        let mut i: usize = 0;
        while i < self.items.len()
            invariant
                i <= self.items.len(),
                out.len() == i,
                forall|j: int| 0 <= j < i ==> out@[j]@ == self@[j].column,
            decreases self.items.len() - i,
        {
            out.push(self.items[i].column.as_str());
            i += 1;
        }
        out
    }

    /// The table aliases of the columns that have one, in order.
    pub fn table_aliases_iter(&self) -> (r: Vec<&TableReference>)
        ensures
            reference_views(r@) == spec_table_aliases(self@),
    {
        let mut out: Vec<&TableReference> = Vec::new();
        let mut i: usize = 0;
        assert(self@.take(0) =~= Seq::<ScopeColumnView>::empty());
        assert(reference_views(out@) =~= Seq::<TableReferenceView>::empty());
        while i < self.items.len()
            invariant
                i <= self.items.len(),
                reference_views(out@) == spec_table_aliases(self@.take(i as int)),
            decreases self.items.len() - i,
        {
            let ghost prior = out@;
            assert(self@.take(i + 1).drop_last() =~= self@.take(i as int));
            assert(self@.take(i + 1).last() == self.items@[i as int]@);
            match &self.items[i].alias {
                Some(a) => {
                    out.push(a);
                    assert(reference_views(out@) =~= reference_views(prior).push(a@));
                },
                None => {},
            }
            i += 1;
        }
        assert(self@.take(self@.len() as int) =~= self@);
        out
    }
}

/// The views of `references`, in order.
pub open spec fn reference_views(references: Seq<&TableReference>) -> Seq<TableReferenceView> {
    Seq::new(references.len(), |i: int| references[i]@)
}

/// The table aliases of the items that have one, in order.
pub open spec fn spec_table_aliases(items: Seq<ScopeColumnView>) -> Seq<TableReferenceView>
    decreases items.len(),
{
    if items.len() == 0 {
        Seq::empty()
    } else {
        let rest = spec_table_aliases(items.drop_last());
        match items.last().alias {
            Some(a) => rest.push(a),
            None => rest,
        }
    }
}

/// No item has an alias that is `None` counted as a table alias.
pub proof fn lemma_first_with_alias(
    items: Seq<ScopeColumnView>,
    alias: Option<TableReferenceView>,
    from: int,
)
    requires
        0 <= from <= items.len(),
    ensures
        from <= first_with_alias(items, alias, from) <= items.len(),
    decreases items.len() - from,
{
    if from < items.len() && items[from].alias != alias {
        lemma_first_with_alias(items, alias, from + 1);
    }
}

} // verus!
