//! The syntax tree of the statements that the parser reads.

use vstd::prelude::*;

verus! {

/// A name as it is written in the statement.
#[derive(Debug, Clone, Copy, PartialEq, Eq)]
pub struct Ident<'a> {
    pub value: &'a str,
}

/// A possibly qualified name: its parts, outermost first.
#[derive(Debug, Clone, PartialEq, Eq)]
pub struct ObjectReference<'a>(pub Vec<Ident<'a>>);

impl<'a> View for ObjectReference<'a> {
    type V = Seq<Seq<char>>;

    open spec fn view(&self) -> Seq<Seq<char>> {
        ident_views(self.0@)
    }
}

/// The texts of `idents`, in order.
pub open spec fn ident_views(idents: Seq<Ident>) -> Seq<Seq<char>> {
    Seq::new(idents.len(), |i: int| idents[i].value@)
}

/// A literal value, as it is written.
#[derive(Debug, Clone, Copy, PartialEq, Eq)]
pub enum Literal<'a> {
    /// Unparsed number literal.
    Number(&'a str),
    /// String literal.
    SingleQuotedString(&'a str),
    /// Boolean literal.
    Boolean(bool),
    /// Null literal.
    Null,
}

/// The mathematical value of a [`Literal`].
pub enum LiteralView {
    Number(Seq<char>),
    SingleQuotedString(Seq<char>),
    Boolean(bool),
    Null,
}

impl<'a> View for Literal<'a> {
    type V = LiteralView;

    open spec fn view(&self) -> LiteralView {
        match self {
            Literal::Number(s) => LiteralView::Number(s@),
            Literal::SingleQuotedString(s) => LiteralView::SingleQuotedString(s@),
            Literal::Boolean(b) => LiteralView::Boolean(*b),
            Literal::Null => LiteralView::Null,
        }
    }
}

/// An expression.
#[derive(Debug, Clone, Copy, PartialEq, Eq)]
pub enum Expr<'a> {
    /// An expression literal.
    Literal(Literal<'a>),
}

/// The mathematical value of an [`Expr`].
pub enum ExprView {
    Literal(LiteralView),
}

impl<'a> View for Expr<'a> {
    type V = ExprView;

    open spec fn view(&self) -> ExprView {
        match self {
            Expr::Literal(l) => ExprView::Literal(l@),
        }
    }
}

/// A data type as it is written in a statement.
#[derive(Debug, Clone, Copy, PartialEq, Eq, Structural)]
pub enum AstDataType {
    /// VARCHAR, with the length where one is given.
    Varchar(Option<u64>),
    /// SMALLINT, INT2
    SmallInt,
    /// INTEGER, INT, INT4
    Integer,
    /// BIGINT, INT8
    BigInt,
    /// REAL, FLOAT, FLOAT4
    Real,
    /// DOUBLE, FLOAT8
    Double,
    /// BOOL, BOOLEAN
    Bool,
}

/// A statement.
#[derive(Debug, Clone, PartialEq, Eq)]
pub enum Statement<'a> {
    /// CREATE SCHEMA ...
    CreateSchema { reference: ObjectReference<'a>, if_not_exists: bool },
    /// SET <variable> TO <value>
    SetVariable { reference: ObjectReference<'a>, value: Expr<'a> },
}

/// The mathematical value of a [`Statement`].
pub enum StatementView {
    CreateSchema { reference: Seq<Seq<char>>, if_not_exists: bool },
    SetVariable { reference: Seq<Seq<char>>, value: ExprView },
}

impl<'a> View for Statement<'a> {
    type V = StatementView;

    open spec fn view(&self) -> StatementView {
        match self {
            Statement::CreateSchema { reference, if_not_exists } => StatementView::CreateSchema {
                reference: reference@,
                if_not_exists: *if_not_exists,
            },
            Statement::SetVariable { reference, value } => StatementView::SetVariable {
                reference: reference@,
                value: value@,
            },
        }
    }
}

/// The views of `statements`, in order.
pub open spec fn statement_views(statements: Seq<Statement>) -> Seq<StatementView> {
    Seq::new(statements.len(), |i: int| statements[i]@)
}

} // verus!
