use rayexec_execution::arrays::datatype::DataType;
use rayexec_execution::ast::{AstDataType, Expr, Ident, Literal, ObjectReference, Statement};
use rayexec_execution::binder::{
    ast_datatype_to_exec_datatype, reference_to_strings, BindData, BoundCte, BoundCteReference,
    BoundItemReference,
};
use rayexec_execution::error::{RayexecError, SyntaxError};
use rayexec_execution::parser::{Keyword, Parser, Token, TokenWithLocation, Word};
use rayexec_execution::scope::{ColumnRef, Scope, ScopeColumn, TableReference};

fn table(name: &str) -> TableReference {
    TableReference { database: None, schema: None, table: name.to_string() }
}

fn names(values: &[&str]) -> Vec<String> {
    values.iter().map(|v| v.to_string()).collect()
}

#[test]
fn scope_resolves_a_column_in_this_scope() {
    let scope = Scope::with_columns(Some(table("t1")), names(&["a", "b"]));
    assert_eq!(scope.num_columns(), 2);
    assert_eq!(scope.column_name_iter(), vec!["a", "b"]);
    assert_eq!(
        scope.resolve_column(&[], None, "b"),
        Ok(Some(ColumnRef { scope_level: 0, item_idx: 1 }))
    );
    assert_eq!(
        scope.resolve_column(&[], Some(&table("t1")), "a"),
        Ok(Some(ColumnRef { scope_level: 0, item_idx: 0 }))
    );
    assert_eq!(scope.resolve_column(&[], Some(&table("t2")), "a"), Ok(None));
    assert_eq!(scope.resolve_column(&[], None, "c"), Ok(None));
}

#[test]
fn scope_resolves_in_outer_scopes_innermost_first() {
    let this = Scope::with_columns(Some(table("t1")), names(&["a"]));
    let outer = vec![
        Scope::with_columns(Some(table("t2")), names(&["x", "y"])),
        Scope::with_columns(Some(table("t3")), names(&["y", "z"])),
    ];
    assert_eq!(
        this.resolve_column(&outer, None, "y"),
        Ok(Some(ColumnRef { scope_level: 1, item_idx: 1 }))
    );
    assert_eq!(
        this.resolve_column(&outer, None, "z"),
        Ok(Some(ColumnRef { scope_level: 2, item_idx: 1 }))
    );
    assert_eq!(
        this.resolve_column(&outer, Some(&table("t3")), "y"),
        Ok(Some(ColumnRef { scope_level: 2, item_idx: 0 }))
    );
}

#[test]
fn scope_reports_an_ambiguous_column() {
    let mut scope = Scope::with_columns(Some(table("t1")), names(&["a", "b"]));
    scope.add_columns(Some(table("t2")), names(&["c", "a"]));
    assert_eq!(
        scope.resolve_column(&[], None, "a"),
        Err(RayexecError::AmbiguousColumn { first: 0, second: 3 })
    );
    assert_eq!(
        scope.resolve_column(&[], Some(&table("t2")), "a"),
        Ok(Some(ColumnRef { scope_level: 0, item_idx: 3 }))
    );
    assert_eq!(
        scope.column_index(None, "a"),
        Err(RayexecError::AmbiguousColumn { first: 0, second: 3 })
    );
}

#[test]
fn table_reference_matches_on_given_qualifiers() {
    let full = TableReference {
        database: Some("db".to_string()),
        schema: Some("public".to_string()),
        table: "t".to_string(),
    };
    let partial = TableReference {
        database: None,
        schema: Some("public".to_string()),
        table: "t".to_string(),
    };
    let other_schema = TableReference {
        database: None,
        schema: Some("private".to_string()),
        table: "t".to_string(),
    };
    assert!(table("t").matches(&full));
    assert!(partial.matches(&full));
    assert!(!other_schema.matches(&full));
    assert!(!table("u").matches(&full));
    assert!(full.same(&full));
    assert!(!partial.same(&full));
}

#[test]
fn scope_merge_rejects_a_duplicate_table() {
    let left = Scope::with_columns(Some(table("t1")), names(&["a", "b"]));
    let right = Scope::with_columns(Some(table("t2")), names(&["c"]));
    let merged = left.merge(right).unwrap();
    assert_eq!(merged.column_name_iter(), vec!["a", "b", "c"]);
    assert_eq!(merged.table_aliases_iter().len(), 3);
    let again = Scope::with_columns(Some(table("t1")), names(&["z"]));
    assert_eq!(
        merged.merge(again),
        Err(RayexecError::DuplicateTable { left: 0, right: 0 })
    );
    let unnamed = Scope::with_columns(None, names(&["u"]));
    let both = Scope::with_columns(None, names(&["v"])).merge(unnamed).unwrap();
    assert_eq!(both.num_columns(), 2);
    assert!(both.table_aliases_iter().is_empty());
}

#[test]
fn scope_items_can_be_changed_in_place() {
    let mut scope = Scope::with_columns(None, names(&["a"]));
    scope.iter_mut().push(ScopeColumn { alias: None, column: "b".to_string() });
    for item in scope.iter_mut().iter_mut() {
        item.column.push('!');
    }
    assert_eq!(scope.column_name_iter(), vec!["a!", "b!"]);
    assert_eq!(Scope::empty().num_columns(), 0);
}

#[test]
fn column_ref_uncorrelated() {
    assert_eq!(ColumnRef { scope_level: 0, item_idx: 4 }.try_as_uncorrelated(), Ok(4));
    assert_eq!(
        ColumnRef { scope_level: 2, item_idx: 4 }.try_as_uncorrelated(),
        Err(RayexecError::CorrelatedColumn { scope_level: 2, item_idx: 4 })
    );
}

#[test]
fn item_reference_pops_its_parts() {
    let mut reference = BoundItemReference::from_vec(names(&["db", "schema", "table"]));
    assert_eq!(reference.pop(), Ok("table".to_string()));
    assert_eq!(reference.pop_2(), Ok(["db".to_string(), "schema".to_string()]));
    assert_eq!(
        reference.pop(),
        Err(RayexecError::EndOfReference { expected: 1, got: 0 })
    );
    let mut reference = BoundItemReference(names(&["a", "b", "c", "d"]));
    assert_eq!(
        reference.pop_3(),
        Ok(["b".to_string(), "c".to_string(), "d".to_string()])
    );
    assert_eq!(
        reference.pop_2(),
        Err(RayexecError::EndOfReference { expected: 2, got: 1 })
    );
    assert!(reference.0.is_empty());
    let mut short = BoundItemReference(names(&["a", "b"]));
    assert_eq!(
        short.pop_3(),
        Err(RayexecError::EndOfReference { expected: 3, got: 2 })
    );
    let mut none = BoundItemReference(vec![]);
    assert_eq!(
        none.pop_2(),
        Err(RayexecError::EndOfReference { expected: 2, got: 0 })
    );
}

fn cte(name: &str, depth: usize) -> BoundCte {
    BoundCte { name: name.to_string(), depth, column_aliases: None, materialized: false }
}

#[test]
fn find_cte_searches_from_the_closest() {
    let mut data = BindData::default();
    assert_eq!(data.push_cte(cte("a", 0)), BoundCteReference { idx: 0 });
    assert_eq!(data.push_cte(cte("b", 0)), BoundCteReference { idx: 1 });
    data.inc_depth();
    assert_eq!(data.push_cte(cte("a", 1)), BoundCteReference { idx: 2 });
    assert_eq!(data.find_cte("a"), Some(BoundCteReference { idx: 2 }));
    assert_eq!(data.find_cte("b"), Some(BoundCteReference { idx: 1 }));
    assert_eq!(data.find_cte("c"), None);
    data.dec_depth();
    // From the outer query the expression of the subquery is out of reach,
    // and it ends the search.
    assert_eq!(data.find_cte("a"), None);
    assert_eq!(data.current_depth, 0);
}

#[test]
fn find_cte_never_goes_back_down() {
    let mut data = BindData::default();
    data.push_cte(cte("deep", 2));
    data.push_cte(cte("top", 0));
    data.current_depth = 2;
    // Passing "top" moves the search up to depth 0; "deep" is then below.
    assert_eq!(data.find_cte("deep"), None);
    assert_eq!(data.find_cte("top"), Some(BoundCteReference { idx: 1 }));
}

fn at(token: Token<'static>) -> TokenWithLocation<'static> {
    TokenWithLocation { token, line: 0, col: 0 }
}

fn keyword(value: &'static str, keyword: Keyword) -> TokenWithLocation<'static> {
    at(Token::Word(Word { value, keyword: Some(keyword) }))
}

fn create_or_replace() -> Vec<TokenWithLocation<'static>> {
    vec![
        at(Token::Whitespace),
        keyword("create", Keyword::CREATE),
        at(Token::Whitespace),
        keyword("or", Keyword::OR),
        at(Token::Whitespace),
        at(Token::Whitespace),
        keyword("replace", Keyword::REPLACE),
        at(Token::Whitespace),
        at(Token::Word(Word { value: "t", keyword: None })),
        at(Token::SemiColon),
        at(Token::Whitespace),
    ]
}

#[test]
fn cursor_passes_over_whitespace() {
    let mut parser = Parser::with_tokens(create_or_replace());
    assert_eq!(parser.peek(), Some(keyword("create", Keyword::CREATE)));
    assert_eq!(parser.next(), Some(keyword("create", Keyword::CREATE)));
    assert_eq!(parser.peek(), Some(keyword("or", Keyword::OR)));
    assert_eq!(parser.next(), Some(keyword("or", Keyword::OR)));
    assert_eq!(parser.next(), Some(keyword("replace", Keyword::REPLACE)));
    assert!(parser.next().is_some());
    assert_eq!(parser.next(), Some(at(Token::SemiColon)));
    assert_eq!(parser.peek(), None);
    assert_eq!(parser.next(), None);
    assert_eq!(parser.next(), None);
}

#[test]
fn cursor_reads_keywords_or_stays() {
    let mut parser = Parser::with_tokens(create_or_replace());
    assert!(!parser.parse_keyword(Keyword::SET));
    assert!(parser.parse_keyword(Keyword::CREATE));
    assert!(!parser.parse_keyword_sequence(&[Keyword::OR, Keyword::TABLE]));
    assert!(!parser.parse_one_of_keywords(&[Keyword::TEMP, Keyword::TEMPORARY]));
    assert!(parser.parse_keyword_sequence(&[Keyword::OR, Keyword::REPLACE]));
    assert!(!parser.parse_one_of_keywords(&[Keyword::TEMP, Keyword::TEMPORARY]));
    assert!(!parser.consume_token(Token::SemiColon));
    assert!(parser.consume_token(Token::Word(Word { value: "t", keyword: None })));
    assert!(parser.consume_token(Token::SemiColon));
    assert!(!parser.consume_token(Token::SemiColon));
    assert!(!parser.parse_one_of_keywords(&[Keyword::TEMP]));
    assert!(parser.parse_keyword_sequence(&[]));
}

#[test]
fn cursor_picks_one_of_several_keywords() {
    let mut parser = Parser::with_tokens(vec![
        keyword("temporary", Keyword::TEMPORARY),
        keyword("table", Keyword::TABLE),
    ]);
    assert!(parser.parse_one_of_keywords(&[Keyword::TEMP, Keyword::TEMPORARY]));
    assert!(parser.parse_keyword(Keyword::TABLE));
    assert!(!parser.parse_keyword(Keyword::TABLE));
    assert!(Token::Number("1").same(&Token::Number("1")));
    assert!(!Token::Number("1").same(&Token::SingleQuotedString("1")));
    assert!(keyword("if", Keyword::IF).is_keyword(Keyword::IF));
    assert!(!at(Token::Comma).is_keyword(Keyword::IF));
}

fn word(value: &'static str) -> TokenWithLocation<'static> {
    at(Token::Word(Word { value, keyword: None }))
}

fn reference(parts: &[&'static str]) -> ObjectReference<'static> {
    ObjectReference(parts.iter().map(|value| Ident { value }).collect())
}

#[test]
fn parses_create_schema() {
    let mut parser = Parser::with_tokens(vec![
        keyword("create", Keyword::CREATE),
        at(Token::Whitespace),
        keyword("schema", Keyword::SCHEMA),
        at(Token::Whitespace),
        keyword("if", Keyword::IF),
        keyword("not", Keyword::NOT),
        keyword("exists", Keyword::EXISTS),
        word("db"),
        at(Token::Period),
        word("s1"),
        at(Token::SemiColon),
    ]);
    assert_eq!(
        parser.parse_statements(),
        Ok(vec![Statement::CreateSchema {
            reference: reference(&["db", "s1"]),
            if_not_exists: true
        }])
    );
    assert_eq!(parser.peek(), None);
}

#[test]
fn parses_several_statements_between_semicolons() {
    let mut parser = Parser::with_tokens(vec![
        at(Token::SemiColon),
        keyword("set", Keyword::SET),
        word("x"),
        keyword("to", Keyword::TO),
        at(Token::Number("5")),
        at(Token::SemiColon),
        at(Token::Whitespace),
        at(Token::SemiColon),
        keyword("set", Keyword::SET),
        word("a"),
        at(Token::Period),
        word("b"),
        at(Token::Eq),
        at(Token::SingleQuotedString("text")),
        at(Token::SemiColon),
        keyword("create", Keyword::CREATE),
        keyword("schema", Keyword::SCHEMA),
        word("s"),
    ]);
    assert_eq!(
        parser.parse_statements(),
        Ok(vec![
            Statement::SetVariable {
                reference: reference(&["x"]),
                value: Expr::Literal(Literal::Number("5"))
            },
            Statement::SetVariable {
                reference: reference(&["a", "b"]),
                value: Expr::Literal(Literal::SingleQuotedString("text"))
            },
            Statement::CreateSchema { reference: reference(&["s"]), if_not_exists: false },
        ])
    );
    assert_eq!(Parser::with_tokens(vec![]).parse_statements(), Ok(vec![]));
    assert_eq!(
        Parser::with_tokens(vec![at(Token::SemiColon), at(Token::Whitespace)]).parse_statements(),
        Ok(vec![])
    );
}

fn syntax(kind: SyntaxError, at: usize) -> RayexecError {
    RayexecError::Syntax { kind, at }
}

#[test]
fn statements_need_a_semicolon_between_them() {
    let mut parser = Parser::with_tokens(vec![
        keyword("set", Keyword::SET),
        word("x"),
        at(Token::Eq),
        keyword("true", Keyword::TRUE),
        at(Token::Whitespace),
        keyword("set", Keyword::SET),
        word("y"),
        at(Token::Eq),
        keyword("null", Keyword::NULL),
    ]);
    assert_eq!(
        parser.parse_statements(),
        Err(syntax(SyntaxError::ExpectedSemicolon, 5))
    );
}

#[test]
fn statement_errors_name_the_token() {
    let parse = |toks: Vec<TokenWithLocation<'static>>| Parser::with_tokens(toks).parse_statement();
    assert_eq!(parse(vec![]), Err(syntax(SyntaxError::EmptyStatement, 0)));
    assert_eq!(
        parse(vec![at(Token::Whitespace), word("x")]),
        Err(syntax(SyntaxError::ExpectedKeyword, 1))
    );
    assert_eq!(
        parse(vec![keyword("table", Keyword::TABLE)]),
        Err(syntax(SyntaxError::UnexpectedKeyword, 0))
    );
    assert_eq!(
        parse(vec![at(Token::Comma)]),
        Err(syntax(SyntaxError::ExpectedStatement, 0))
    );
    assert_eq!(
        parse(vec![keyword("set", Keyword::SET), word("x"), at(Token::Comma)]),
        Err(syntax(SyntaxError::ExpectedSetValue, 2))
    );
    assert_eq!(
        parse(vec![keyword("set", Keyword::SET), word("x"), at(Token::Eq)]),
        Err(syntax(SyntaxError::UnexpectedEnd, 3))
    );
    assert_eq!(
        parse(vec![keyword("set", Keyword::SET), word("x"), at(Token::Eq), at(Token::Comma)]),
        Err(syntax(SyntaxError::ExpectedExpression, 3))
    );
    assert_eq!(
        parse(vec![keyword("set", Keyword::SET), word("x"), at(Token::Eq), word("y")]),
        Err(RayexecError::NotImplemented)
    );
    assert_eq!(
        parse(vec![keyword("set", Keyword::SET), at(Token::Number("1"))]),
        Err(syntax(SyntaxError::ExpectedObjectReference, 1))
    );
    assert_eq!(
        parse(vec![
            keyword("set", Keyword::SET),
            word("x"),
            keyword("to", Keyword::TO),
            keyword("false", Keyword::FALSE)
        ]),
        Ok(Statement::SetVariable {
            reference: reference(&["x"]),
            value: Expr::Literal(Literal::Boolean(false))
        })
    );
}

#[test]
fn create_supports_plain_schemas_only() {
    let parse = |toks: Vec<TokenWithLocation<'static>>| Parser::with_tokens(toks).parse_statement();
    assert_eq!(
        parse(vec![
            keyword("create", Keyword::CREATE),
            keyword("or", Keyword::OR),
            keyword("replace", Keyword::REPLACE),
            keyword("schema", Keyword::SCHEMA),
            word("s"),
        ]),
        Err(syntax(SyntaxError::OrReplaceNotSupported, 3))
    );
    assert_eq!(
        parse(vec![
            keyword("create", Keyword::CREATE),
            keyword("temp", Keyword::TEMP),
            keyword("schema", Keyword::SCHEMA),
            word("s"),
        ]),
        Err(syntax(SyntaxError::TemporaryNotSupported, 2))
    );
    assert_eq!(
        parse(vec![
            keyword("create", Keyword::CREATE),
            keyword("table", Keyword::TABLE),
            word("t"),
        ]),
        Err(RayexecError::NotImplemented)
    );
    assert_eq!(
        parse(vec![keyword("create", Keyword::CREATE), word("index")]),
        Err(RayexecError::NotImplemented)
    );
    // A name may be empty where the tokens end.
    assert_eq!(
        parse(vec![keyword("create", Keyword::CREATE), keyword("schema", Keyword::SCHEMA)]),
        Ok(Statement::CreateSchema { reference: reference(&[]), if_not_exists: false })
    );
}

#[test]
fn written_types_and_references_are_converted() {
    assert_eq!(ast_datatype_to_exec_datatype(AstDataType::Varchar(Some(10))), DataType::Utf8);
    assert_eq!(ast_datatype_to_exec_datatype(AstDataType::SmallInt), DataType::Int16);
    assert_eq!(ast_datatype_to_exec_datatype(AstDataType::Integer), DataType::Int32);
    assert_eq!(ast_datatype_to_exec_datatype(AstDataType::BigInt), DataType::Int64);
    assert_eq!(ast_datatype_to_exec_datatype(AstDataType::Real), DataType::Float32);
    assert_eq!(ast_datatype_to_exec_datatype(AstDataType::Double), DataType::Float64);
    assert_eq!(ast_datatype_to_exec_datatype(AstDataType::Bool), DataType::Boolean);
    assert_eq!(
        reference_to_strings(reference(&["Db", "t"])),
        vec!["Db".to_string(), "t".to_string()]
    );
}

#[test]
fn references_as_text() {
    let full = TableReference {
        database: Some("db".to_string()),
        schema: Some("public".to_string()),
        table: "t".to_string(),
    };
    assert_eq!(full.to_text(), "dbpublict");
    assert_eq!(table("t").to_text(), "t");
    assert_eq!(BoundItemReference(names(&["a", "b", "c"])).to_text(), "a,b,c");
    assert_eq!(BoundItemReference(vec![]).to_text(), "");
}
