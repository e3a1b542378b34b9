//! The token cursor of the SQL parser.

use vstd::prelude::*;

use crate::ast::{
    ident_views,
    statement_views,
    Expr,
    ExprView,
    Ident,
    Literal,
    LiteralView,
    ObjectReference,
    Statement,
    StatementView,
};
use crate::error::{RayexecError, SyntaxError};
use crate::scope::str_eq;

verus! {

/// The reserved words that the cursor is asked for.
#[derive(Debug, Clone, Copy, PartialEq, Eq, Hash, Structural)]
pub enum Keyword {
    AS,
    CREATE,
    EXISTS,
    FALSE,
    FROM,
    IF,
    NOT,
    NULL,
    OR,
    REPLACE,
    SCHEMA,
    SELECT,
    SET,
    TABLE,
    TEMP,
    TEMPORARY,
    TO,
    TRUE,
    WHERE,
}

/// A word of the statement, with the keyword that it is, if it is one.
#[derive(Debug, Clone, Copy, PartialEq, Eq)]
pub struct Word<'a> {
    pub value: &'a str,
    pub keyword: Option<Keyword>,
}

/// One token of a statement.
#[derive(Debug, Clone, Copy, PartialEq, Eq)]
pub enum Token<'a> {
    Word(Word<'a>),
    SingleQuotedString(&'a str),
    Number(&'a str),
    Whitespace,
    Eq,
    Comma,
    SemiColon,
    Period,
    LeftParen,
    RightParen,
    LeftBrace,
    RightBrace,
    LeftBracket,
    RightBracket,
}

/// The mathematical value of a [`Token`].
pub enum TokenView {
    Word { value: Seq<char>, keyword: Option<Keyword> },
    SingleQuotedString(Seq<char>),
    Number(Seq<char>),
    Whitespace,
    Eq,
    Comma,
    SemiColon,
    Period,
    LeftParen,
    RightParen,
    LeftBrace,
    RightBrace,
    LeftBracket,
    RightBracket,
}

impl<'a> View for Token<'a> {
    type V = TokenView;

    open spec fn view(&self) -> TokenView {
        match self {
            Token::Word(w) => TokenView::Word { value: w.value@, keyword: w.keyword },
            Token::SingleQuotedString(s) => TokenView::SingleQuotedString(s@),
            Token::Number(s) => TokenView::Number(s@),
            Token::Whitespace => TokenView::Whitespace,
            Token::Eq => TokenView::Eq,
            Token::Comma => TokenView::Comma,
            Token::SemiColon => TokenView::SemiColon,
            Token::Period => TokenView::Period,
            Token::LeftParen => TokenView::LeftParen,
            Token::RightParen => TokenView::RightParen,
            Token::LeftBrace => TokenView::LeftBrace,
            Token::RightBrace => TokenView::RightBrace,
            Token::LeftBracket => TokenView::LeftBracket,
            Token::RightBracket => TokenView::RightBracket,
        }
    }
}

impl TokenView {
    /// Whether the token is the keyword `keyword`.
    pub open spec fn is_keyword(self, keyword: Keyword) -> bool {
        self matches TokenView::Word { keyword: k, .. } && k == Some(keyword)
    }

    /// Whether the token is one of `keywords`.
    pub open spec fn is_one_of(self, keywords: Seq<Keyword>) -> bool {
        exists|i: int| 0 <= i < keywords.len() && self.is_keyword(#[trigger] keywords[i])
    }
}

impl<'a> Token<'a> {
    /// Whether the two tokens are equal.
    pub fn same(&self, other: &Token<'a>) -> (r: bool)
        ensures
            r == (self@ == other@),
    {
        match (self, other) {
            (Token::Word(a), Token::Word(b)) => {
                let keywords = match (a.keyword, b.keyword) {
                    (Some(x), Some(y)) => x == y,
                    (None, None) => true,
                    _ => false,
                };
                keywords && str_eq(a.value, b.value)
            },
            (Token::SingleQuotedString(a), Token::SingleQuotedString(b)) => str_eq(a, b),
            (Token::Number(a), Token::Number(b)) => str_eq(a, b),
            (Token::Whitespace, Token::Whitespace) => true,
            (Token::Eq, Token::Eq) => true,
            (Token::Comma, Token::Comma) => true,
            (Token::SemiColon, Token::SemiColon) => true,
            (Token::Period, Token::Period) => true,
            (Token::LeftParen, Token::LeftParen) => true,
            (Token::RightParen, Token::RightParen) => true,
            (Token::LeftBrace, Token::LeftBrace) => true,
            (Token::RightBrace, Token::RightBrace) => true,
            (Token::LeftBracket, Token::LeftBracket) => true,
            (Token::RightBracket, Token::RightBracket) => true,
            _ => false,
        }
    }
}

/// A token with the place in the statement where it begins.
#[derive(Debug, Clone, Copy, PartialEq, Eq)]
pub struct TokenWithLocation<'a> {
    pub token: Token<'a>,
    /// Line number for the token.
    pub line: usize,
    /// Column number for where the token starts.
    pub col: usize,
}

impl<'a> TokenWithLocation<'a> {
    /// Whether the token is the keyword `other`.
    pub fn is_keyword(&self, other: Keyword) -> (r: bool)
        ensures
            r == self.token@.is_keyword(other),
    {
        match &self.token {
            Token::Word(w) => match w.keyword {
                Some(k) => k == other,
                None => false,
            },
            _ => false,
        }
    }
}

/// The views of the tokens of `toks`, in order.
pub open spec fn token_views(toks: Seq<TokenWithLocation>) -> Seq<TokenView> {
    Seq::new(toks.len(), |i: int| toks[i].token@)
}

/// The position of the first token at or after `idx` that is not
/// whitespace, or the number of tokens when there is none.
pub open spec fn next_significant(toks: Seq<TokenView>, idx: int) -> int
    decreases toks.len() - idx,
{
    if idx < 0 || idx >= toks.len() {
        if idx > toks.len() {
            idx
        } else {
            toks.len() as int
        }
    } else if toks[idx] is Whitespace {
        next_significant(toks, idx + 1)
    } else {
        idx
    }
}

/// Where the cursor stands after the keywords `keywords[from..]` have been
/// read one after the other from `idx` on, or `None` when the tokens there
/// are not those keywords.
pub open spec fn match_keywords(
    toks: Seq<TokenView>,
    idx: int,
    keywords: Seq<Keyword>,
    from: int,
) -> Option<int>
    decreases keywords.len() - from,
{
    if from < 0 || from >= keywords.len() {
        Some(idx)
    } else {
        let at = next_significant(toks, idx);
        if 0 <= at < toks.len() && toks[at].is_keyword(keywords[from]) {
            match_keywords(toks, at + 1, keywords, from + 1)
        } else {
            None
        }
    }
}

/// `next_significant` lies at or after the position it starts from.
pub proof fn lemma_next_significant(toks: Seq<TokenView>, idx: int)
    requires
        0 <= idx,
    ensures
        idx <= next_significant(toks, idx),
        idx <= toks.len() ==> next_significant(toks, idx) <= toks.len(),
    decreases toks.len() - idx,
{
    if idx < toks.len() && toks[idx] is Whitespace {
        lemma_next_significant(toks, idx + 1);
    }
}

/// What parsing gives: the result, and where the cursor stands after it.
pub struct Parsed<T> {
    pub result: Result<T, RayexecError>,
    pub idx: int,
}

/// The error of kind `kind` at token `at`.
pub open spec fn syntax_error(kind: SyntaxError, at: int) -> RayexecError {
    RayexecError::Syntax { kind, at: at as usize }
}

/// Whether `at` is the position of a token.
pub open spec fn in_tokens(toks: Seq<TokenView>, at: int) -> bool {
    0 <= at < toks.len()
}

/// A name read from `idx` on, after the parts `parts`: words separated by
/// periods. Reading ends without an error where the tokens end; a token
/// that is no word where a part is read is an error.
pub open spec fn spec_object_reference(
    toks: Seq<TokenView>,
    idx: int,
    parts: Seq<Seq<char>>,
) -> Parsed<Seq<Seq<char>>>
    decreases toks.len() - idx,
{
    let at = next_significant(toks, idx);
    if idx < 0 || !in_tokens(toks, at) {
        Parsed { result: Ok(parts), idx: at }
    } else {
        match toks[at] {
            TokenView::Word { value, .. } => {
                let dot = next_significant(toks, at + 1);
                if in_tokens(toks, dot) && toks[dot] == TokenView::Period {
                    proof {
                        lemma_next_significant(toks, idx);
                        lemma_next_significant(toks, at + 1);
                    }
                    spec_object_reference(toks, dot + 1, parts.push(value))
                } else {
                    Parsed { result: Ok(parts.push(value)), idx: at + 1 }
                }
            },
            _ => Parsed {
                result: Err(syntax_error(SyntaxError::ExpectedObjectReference, at)),
                idx: at + 1,
            },
        }
    }
}

/// An expression read from `idx` on: one of the keywords `TRUE`, `FALSE`
/// and `NULL`, a quoted string, or a number. Other words are not read yet.
pub open spec fn spec_prefix_expr(toks: Seq<TokenView>, idx: int) -> Parsed<ExprView> {
    let at = next_significant(toks, idx);
    if !in_tokens(toks, at) {
        Parsed { result: Err(syntax_error(SyntaxError::UnexpectedEnd, at)), idx: at }
    } else {
        Parsed {
            result: match toks[at] {
                TokenView::Word { keyword: Some(Keyword::TRUE), .. } => Ok(
                    ExprView::Literal(LiteralView::Boolean(true)),
                ),
                TokenView::Word { keyword: Some(Keyword::FALSE), .. } => Ok(
                    ExprView::Literal(LiteralView::Boolean(false)),
                ),
                TokenView::Word { keyword: Some(Keyword::NULL), .. } => Ok(
                    ExprView::Literal(LiteralView::Null),
                ),
                TokenView::Word { .. } => Err(RayexecError::NotImplemented),
                TokenView::SingleQuotedString(s) => Ok(
                    ExprView::Literal(LiteralView::SingleQuotedString(s)),
                ),
                TokenView::Number(s) => Ok(ExprView::Literal(LiteralView::Number(s))),
                _ => Err(syntax_error(SyntaxError::ExpectedExpression, at)),
            },
            idx: at + 1,
        }
    }
}

/// The rest of a `SET` statement read from `idx` on: a name, then `TO` or
/// `=`, then an expression.
pub open spec fn spec_set(toks: Seq<TokenView>, idx: int) -> Parsed<StatementView> {
    let name = spec_object_reference(toks, idx, Seq::empty());
    match name.result {
        Err(e) => Parsed { result: Err(e), idx: name.idx },
        Ok(reference) => {
            let at = next_significant(toks, name.idx);
            if in_tokens(toks, at) && (toks[at].is_keyword(Keyword::TO) || toks[at]
                == TokenView::Eq) {
                let value = spec_prefix_expr(toks, at + 1);
                Parsed {
                    result: match value.result {
                        Ok(value) => Ok(StatementView::SetVariable { reference, value }),
                        Err(e) => Err(e),
                    },
                    idx: value.idx,
                }
            } else {
                Parsed {
                    result: Err(syntax_error(SyntaxError::ExpectedSetValue, name.idx)),
                    idx: name.idx,
                }
            }
        },
    }
}

/// Where the cursor stands after the keywords `keywords` have been tried
/// from `idx` on, and whether they were there.
pub open spec fn spec_keyword_sequence(toks: Seq<TokenView>, idx: int, keywords: Seq<Keyword>) -> (
    bool,
    int,
) {
    match match_keywords(toks, idx, keywords, 0) {
        Some(end) => (true, end),
        None => (false, idx),
    }
}

/// The rest of a `CREATE` statement read from `idx` on. Only schemas are
/// created yet, and neither replaced nor temporary.
pub open spec fn spec_create(toks: Seq<TokenView>, idx: int) -> Parsed<StatementView> {
    let (or_replace, after_replace) = spec_keyword_sequence(
        toks,
        idx,
        seq![Keyword::OR, Keyword::REPLACE],
    );
    let t = next_significant(toks, after_replace);
    let temp = in_tokens(toks, t) && toks[t].is_one_of(seq![Keyword::TEMP, Keyword::TEMPORARY]);
    let after_temp = if temp {
        t + 1
    } else if in_tokens(toks, t) {
        after_replace
    } else {
        t
    };
    let k = next_significant(toks, after_temp);
    if in_tokens(toks, k) && toks[k].is_keyword(Keyword::TABLE) {
        Parsed { result: Err(RayexecError::NotImplemented), idx: k + 1 }
    } else if in_tokens(toks, k) && toks[k].is_keyword(Keyword::SCHEMA) {
        if or_replace {
            Parsed {
                result: Err(syntax_error(SyntaxError::OrReplaceNotSupported, k)),
                idx: k + 1,
            }
        } else if temp {
            Parsed {
                result: Err(syntax_error(SyntaxError::TemporaryNotSupported, k)),
                idx: k + 1,
            }
        } else {
            let (if_not_exists, after_exists) = spec_keyword_sequence(
                toks,
                k + 1,
                seq![Keyword::IF, Keyword::NOT, Keyword::EXISTS],
            );
            let name = spec_object_reference(toks, after_exists, Seq::empty());
            Parsed {
                result: match name.result {
                    Ok(reference) => Ok(StatementView::CreateSchema { reference, if_not_exists }),
                    Err(e) => Err(e),
                },
                idx: name.idx,
            }
        }
    } else {
        Parsed { result: Err(RayexecError::NotImplemented), idx: after_temp }
    }
}

/// One statement read from `idx` on: the keyword `CREATE` or `SET`, and
/// the rest of that statement.
pub open spec fn spec_statement(toks: Seq<TokenView>, idx: int) -> Parsed<StatementView> {
    let at = next_significant(toks, idx);
    if !in_tokens(toks, at) {
        Parsed { result: Err(syntax_error(SyntaxError::EmptyStatement, at)), idx: at }
    } else {
        match toks[at] {
            TokenView::Word { keyword: None, .. } => Parsed {
                result: Err(syntax_error(SyntaxError::ExpectedKeyword, at)),
                idx: at + 1,
            },
            TokenView::Word { keyword: Some(Keyword::CREATE), .. } => spec_create(toks, at + 1),
            TokenView::Word { keyword: Some(Keyword::SET), .. } => spec_set(toks, at + 1),
            TokenView::Word { .. } => Parsed {
                result: Err(syntax_error(SyntaxError::UnexpectedKeyword, at)),
                idx: at + 1,
            },
            _ => Parsed {
                result: Err(syntax_error(SyntaxError::ExpectedStatement, at)),
                idx: at + 1,
            },
        }
    }
}

/// Where the cursor stands after every semicolon from `idx` on has been
/// passed.
pub open spec fn skip_semicolons(toks: Seq<TokenView>, idx: int) -> int
    decreases toks.len() - idx,
{
    let at = next_significant(toks, idx);
    if idx >= 0 && in_tokens(toks, at) && toks[at] == TokenView::SemiColon {
        proof {
            lemma_next_significant(toks, idx);
        }
        skip_semicolons(toks, at + 1)
    } else {
        idx
    }
}

/// Reading a name never moves the cursor back.
pub proof fn lemma_object_reference_advances(toks: Seq<TokenView>, idx: int, parts: Seq<Seq<char>>)
    requires
        0 <= idx,
    ensures
        idx <= spec_object_reference(toks, idx, parts).idx,
        idx <= toks.len() ==> spec_object_reference(toks, idx, parts).idx <= toks.len(),
    decreases toks.len() - idx,
{
    lemma_next_significant(toks, idx);
    let at = next_significant(toks, idx);
    if in_tokens(toks, at) {
        match toks[at] {
            TokenView::Word { value, .. } => {
                let dot = next_significant(toks, at + 1);
                lemma_next_significant(toks, at + 1);
                if in_tokens(toks, dot) && toks[dot] == TokenView::Period {
                    lemma_object_reference_advances(toks, dot + 1, parts.push(value));
                }
            },
            _ => {},
        }
    }
}

/// Matching keywords never moves the cursor back.
pub proof fn lemma_match_keywords_advances(
    toks: Seq<TokenView>,
    idx: int,
    keywords: Seq<Keyword>,
    from: int,
)
    requires
        0 <= idx,
        0 <= from,
    ensures
        match_keywords(toks, idx, keywords, from) matches Some(end) ==> idx <= end && (idx
            <= toks.len() ==> end <= toks.len()),
    decreases keywords.len() - from,
{
    if from < keywords.len() {
        lemma_next_significant(toks, idx);
        let at = next_significant(toks, idx);
        if in_tokens(toks, at) && toks[at].is_keyword(keywords[from]) {
            lemma_match_keywords_advances(toks, at + 1, keywords, from + 1);
        }
    }
}

/// Where there is a token to read, reading a statement moves the cursor
/// forward.
pub proof fn lemma_statement_advances(toks: Seq<TokenView>, idx: int)
    requires
        0 <= idx,
        in_tokens(toks, next_significant(toks, idx)),
    ensures
        idx < spec_statement(toks, idx).idx <= toks.len(),
{
    lemma_next_significant(toks, idx);
    let at = next_significant(toks, idx);
    match toks[at] {
        TokenView::Word { keyword: Some(Keyword::CREATE), .. } => {
            let start = at + 1;
            lemma_match_keywords_advances(toks, start, seq![Keyword::OR, Keyword::REPLACE], 0);
            let (or_replace, after_replace) = spec_keyword_sequence(
                toks,
                start,
                seq![Keyword::OR, Keyword::REPLACE],
            );
            lemma_next_significant(toks, after_replace);
            let t = next_significant(toks, after_replace);
            let temp = in_tokens(toks, t) && toks[t].is_one_of(
                seq![Keyword::TEMP, Keyword::TEMPORARY],
            );
            let after_temp = if temp {
                t + 1
            } else if in_tokens(toks, t) {
                after_replace
            } else {
                t
            };
            lemma_next_significant(toks, after_temp);
            let k = next_significant(toks, after_temp);
            if in_tokens(toks, k) && toks[k].is_keyword(Keyword::SCHEMA) && !or_replace && !temp {
                lemma_match_keywords_advances(
                    toks,
                    k + 1,
                    seq![Keyword::IF, Keyword::NOT, Keyword::EXISTS],
                    0,
                );
                let (if_not_exists, after_exists) = spec_keyword_sequence(
                    toks,
                    k + 1,
                    seq![Keyword::IF, Keyword::NOT, Keyword::EXISTS],
                );
                lemma_object_reference_advances(toks, after_exists, Seq::empty());
            }
        },
        TokenView::Word { keyword: Some(Keyword::SET), .. } => {
            lemma_object_reference_advances(toks, at + 1, Seq::empty());
            let name = spec_object_reference(toks, at + 1, Seq::empty());
            lemma_next_significant(toks, name.idx);
            let eq = next_significant(toks, name.idx);
            lemma_next_significant(toks, eq + 1);
        },
        _ => {},
    }
}

/// Passing semicolons never moves the cursor back.
pub proof fn lemma_skip_semicolons(toks: Seq<TokenView>, idx: int)
    requires
        0 <= idx,
    ensures
        idx <= skip_semicolons(toks, idx),
        idx <= toks.len() ==> skip_semicolons(toks, idx) <= toks.len(),
    decreases toks.len() - idx,
{
    lemma_next_significant(toks, idx);
    let at = next_significant(toks, idx);
    if in_tokens(toks, at) && toks[at] == TokenView::SemiColon {
        lemma_skip_semicolons(toks, at + 1);
    }
}

/// Any number of statements read from `idx` on, after the statements
/// `done`. Semicolons separate the statements and may stand before, after
/// and between them in any number; `expect_delimiter` says that a statement
/// has been read and no semicolon since.
pub open spec fn spec_statements(
    toks: Seq<TokenView>,
    idx: int,
    expect_delimiter: bool,
    done: Seq<StatementView>,
) -> Parsed<Seq<StatementView>>
    decreases toks.len() - idx,
{
    let start = skip_semicolons(toks, idx);
    let at = next_significant(toks, start);
    if idx < 0 || !in_tokens(toks, at) {
        Parsed { result: Ok(done), idx: start }
    } else if expect_delimiter && start == idx {
        Parsed { result: Err(syntax_error(SyntaxError::ExpectedSemicolon, at)), idx: start }
    } else {
        let stmt = spec_statement(toks, start);
        match stmt.result {
            Err(e) => Parsed { result: Err(e), idx: stmt.idx },
            Ok(s) => {
                proof {
                    assert(0 <= idx);
                    lemma_skip_semicolons(toks, idx);
                    assert(idx <= start);
                    lemma_next_significant(toks, start);
                    assert(in_tokens(toks, next_significant(toks, start)));
                    lemma_statement_advances(toks, start);
                    assert(idx < stmt.idx <= toks.len());
                }
                spec_statements(toks, stmt.idx, true, done.push(s))
            },
        }
    }
}

/// A cursor over the tokens of a statement. Whitespace is passed over.
#[derive(Debug)]
pub struct Parser<'a> {
    toks: Vec<TokenWithLocation<'a>>,
    /// Index of token we should process next.
    idx: usize,
}

impl<'a> Parser<'a> {
    /// The representation invariant: the cursor stands at a token or at the
    /// end.
    #[verifier::type_invariant]
    pub closed spec fn wf(&self) -> bool {
        self.idx <= self.toks@.len()
    }

    /// The tokens that the cursor runs over.
    pub closed spec fn spec_tokens(&self) -> Seq<TokenView> {
        token_views(self.toks@)
    }

    /// The tokens with their places.
    pub closed spec fn spec_located(&self) -> Seq<TokenWithLocation<'a>> {
        self.toks@
    }

    /// The index of the token that is read next.
    pub closed spec fn spec_idx(&self) -> int {
        self.idx as int
    }

    /// A cursor at the first of `toks`.
    pub fn with_tokens(toks: Vec<TokenWithLocation<'a>>) -> (r: Parser<'a>)
        ensures
            r.spec_located() == toks@,
            r.spec_tokens() == token_views(toks@),
            r.spec_idx() == 0,
    {
        Parser { toks, idx: 0 }
    }

    /// Parse a single keyword.
    ///
    /// The cursor moves past the keyword when it is the next token, and
    /// stays where it was when it is not.
    pub fn parse_keyword(&mut self, keyword: Keyword) -> (r: bool)
        ensures
            final(self).spec_located() == old(self).spec_located(),
            ({
                let at = next_significant(old(self).spec_tokens(), old(self).spec_idx());
                &&& r == (0 <= at < old(self).spec_tokens().len() && old(self).spec_tokens()[at].is_keyword(
                    keyword,
                ))
                &&& final(self).spec_idx() == if r {
                    at + 1
                } else {
                    old(self).spec_idx()
                }
            }),
    {
        proof {
            use_type_invariant(&*self);
        }
        let idx = self.idx;
        if let Some(tok) = self.next() {
            if tok.is_keyword(keyword) {
                return true;
            }
        }
        // Keyword doesn't match. Reset index and return.
        self.idx = idx;
        false
    }

    /// Parse an exact sequence of keywords.
    ///
    /// If the sequence doesn't match, idx is not changed, and false is
    /// returned.
    #[verifier::loop_isolation(false)]
    pub fn parse_keyword_sequence(&mut self, keywords: &[Keyword]) -> (r: bool)
        ensures
            final(self).spec_located() == old(self).spec_located(),
            match match_keywords(old(self).spec_tokens(), old(self).spec_idx(), keywords@, 0) {
                Some(end) => r && final(self).spec_idx() == end,
                None => !r && final(self).spec_idx() == old(self).spec_idx(),
            },
    {
        proof {
            use_type_invariant(&*self);
        }
        let idx = self.idx;
        let ghost toks = self.spec_tokens();
        let mut k: usize = 0;
        while k < keywords.len()
            invariant
                k <= keywords.len(),
                self.spec_located() == old(self).spec_located(),
                toks == self.spec_tokens(),
                idx == old(self).spec_idx(),
                match_keywords(toks, idx as int, keywords@, 0) == match_keywords(
                    toks,
                    self.spec_idx(),
                    keywords@,
                    k as int,
                ),
            decreases keywords.len() - k,
        {
            let matched = match self.next() {
                Some(tok) => tok.is_keyword(keywords[k]),
                None => false,
            };
            if !matched {
                // Keyword doesn't match. Reset index and return.
                self.idx = idx;
                return false;
            }
            k += 1;
        }
        true
    }

    /// Parse any of the provided keywords.
    ///
    /// The cursor moves past the next token when it is one of the
    /// keywords. When it is another token, the cursor stays where it was;
    /// when there is no next token, the cursor stands at the end.
    #[verifier::loop_isolation(false)]
    pub fn parse_one_of_keywords(&mut self, keywords: &[Keyword]) -> (r: bool)
        ensures
            final(self).spec_located() == old(self).spec_located(),
            ({
                let at = next_significant(old(self).spec_tokens(), old(self).spec_idx());
                &&& r == (0 <= at < old(self).spec_tokens().len() && old(self).spec_tokens()[at].is_one_of(
                    keywords@,
                ))
                &&& final(self).spec_idx() == if r {
                    at + 1
                } else if 0 <= at < old(self).spec_tokens().len() {
                    old(self).spec_idx()
                } else {
                    at
                }
            }),
    {
        proof {
            use_type_invariant(&*self);
        }
        let idx = self.idx;
        let tok = match self.next() {
            Some(tok) => tok,
            None => {
                return false;
            },
        };
        let mut k: usize = 0;
        while k < keywords.len()
            invariant
                k <= keywords.len(),
                forall|j: int| 0 <= j < k ==> !tok.token@.is_keyword(#[trigger] keywords@[j]),
            decreases keywords.len() - k,
        {
            if tok.is_keyword(keywords[k]) {
                return true;
            }
            k += 1;
        }
        // No matches, reset index.
        self.idx = idx;
        false
    }

    /// Consume the next token if it matches expected.
    ///
    /// Returns false with the state unchanged if the next token does not match
    /// expected.
    pub fn consume_token(&mut self, expected: Token<'a>) -> (r: bool)
        ensures
            final(self).spec_located() == old(self).spec_located(),
            ({
                let at = next_significant(old(self).spec_tokens(), old(self).spec_idx());
                &&& r == (0 <= at < old(self).spec_tokens().len() && old(self).spec_tokens()[at]
                    == expected@)
                &&& final(self).spec_idx() == if r {
                    at + 1
                } else {
                    old(self).spec_idx()
                }
            }),
    {
        let tok = match self.peek() {
            Some(tok) => tok,
            None => {
                return false;
            },
        };
        if tok.token.same(&expected) {
            let _ = self.next();
            return true;
        }
        false
    }

    /// Get the next token.
    ///
    /// Ignores whitespace.
    #[verifier::loop_isolation(false)]
    pub fn next(&mut self) -> (r: Option<TokenWithLocation<'a>>)
        ensures
            final(self).spec_located() == old(self).spec_located(),
            ({
                let at = next_significant(old(self).spec_tokens(), old(self).spec_idx());
                match r {
                    Some(tok) => 0 <= at < old(self).spec_tokens().len() && tok == old(
                        self,
                    ).spec_located()[at] && final(self).spec_idx() == at + 1,
                    None => at >= old(self).spec_tokens().len() && final(self).spec_idx() == at,
                }
            }),
    {
        let ghost toks = self.spec_tokens();
        let ghost start = self.spec_idx();
        loop
            invariant
                self.spec_located() == old(self).spec_located(),
                toks == self.spec_tokens(),
                start <= self.spec_idx(),
                next_significant(toks, start) == next_significant(toks, self.spec_idx()),
            decreases self.toks.len() - self.idx,
        {
            if self.idx >= self.toks.len() {
                return None;
            }
            let tok = self.toks[self.idx];
            assert(toks[self.idx as int] == tok.token@);
            self.idx += 1;
            match tok.token {
                Token::Whitespace => {},
                _ => {
                    return Some(tok);
                },
            }
        }
    }

    /// Parse any number of statements, including zero statements.
    ///
    /// Statements are expected to be delineated with a semicolon.
    #[verifier::loop_isolation(false)]
    pub fn parse_statements(&mut self) -> (r: Result<Vec<Statement<'a>>, RayexecError>)
        ensures
            final(self).spec_located() == old(self).spec_located(),
            ({
                let p = spec_statements(
                    old(self).spec_tokens(),
                    old(self).spec_idx(),
                    false,
                    Seq::empty(),
                );
                &&& final(self).spec_idx() == p.idx
                &&& match r {
                    Ok(stmts) => p.result == Ok::<Seq<StatementView>, RayexecError>(
                        statement_views(stmts@),
                    ),
                    Err(e) => p.result == Err::<Seq<StatementView>, RayexecError>(e),
                }
            }),
    {
        let ghost toks = self.spec_tokens();
        let ghost begin = self.spec_idx();
        let mut stmts: Vec<Statement<'a>> = Vec::new();
        let mut expect_delimiter = false;
        assert(statement_views(stmts@) =~= Seq::<StatementView>::empty());
        loop
            invariant
                self.spec_located() == old(self).spec_located(),
                toks == self.spec_tokens(),
                0 <= self.spec_idx(),
                spec_statements(toks, begin, false, Seq::empty()) == spec_statements(
                    toks,
                    self.spec_idx(),
                    expect_delimiter,
                    statement_views(stmts@),
                ),
            decreases toks.len() - self.spec_idx(),
        {
            let ghost before = self.spec_idx();
            if self.pass_semicolons() {
                expect_delimiter = false;
            }
            proof {
                lemma_skip_semicolons(toks, before);
                lemma_next_significant(toks, self.spec_idx());
            }
            if self.peek().is_none() {
                // We're done.
                return Ok(stmts);
            }
            if expect_delimiter {
                let at = self.significant_index();
                return Err(RayexecError::Syntax { kind: SyntaxError::ExpectedSemicolon, at });
            }
            proof {
                lemma_statement_advances(toks, self.spec_idx());
            }
            let stmt = match self.parse_statement() {
                Ok(stmt) => stmt,
                Err(e) => {
                    return Err(e);
                },
            };
            let ghost prior = statement_views(stmts@);
            stmts.push(stmt);
            assert(statement_views(stmts@) =~= prior.push(stmt@));
            expect_delimiter = true;
        }
    }

    /// Passes every semicolon that comes next, and says whether there was
    /// one.
    #[verifier::loop_isolation(false)]
    fn pass_semicolons(&mut self) -> (r: bool)
        ensures
            final(self).spec_located() == old(self).spec_located(),
            final(self).spec_idx() == skip_semicolons(old(self).spec_tokens(), old(self).spec_idx()),
            r == (final(self).spec_idx() != old(self).spec_idx()),
    {
        let ghost toks = self.spec_tokens();
        let ghost begin = self.spec_idx();
        let mut passed = false;
        loop
            invariant
                self.spec_located() == old(self).spec_located(),
                toks == self.spec_tokens(),
                begin <= self.spec_idx(),
                passed == (self.spec_idx() != begin),
                skip_semicolons(toks, begin) == skip_semicolons(toks, self.spec_idx()),
            decreases toks.len() - self.spec_idx(),
        {
            proof {
                use_type_invariant(&*self);
                lemma_next_significant(toks, self.spec_idx());
            }
            if !self.consume_token(Token::SemiColon) {
                return passed;
            }
            passed = true;
        }
    }

    /// The position of the next token that is not whitespace, or the
    /// number of tokens when there is none.
    fn significant_index(&self) -> (at: usize)
        ensures
            at == next_significant(self.spec_tokens(), self.spec_idx()),
    {
        proof {
            use_type_invariant(self);
            lemma_next_significant(self.spec_tokens(), self.spec_idx());
        }
        let mut idx = self.idx;
        while idx < self.toks.len()
            invariant
                self.idx <= idx <= self.toks.len(),
                next_significant(self.spec_tokens(), self.spec_idx()) == next_significant(
                    self.spec_tokens(),
                    idx as int,
                ),
            decreases self.toks.len() - idx,
        {
            assert(self.spec_tokens()[idx as int] == self.toks[idx as int].token@);
            match self.toks[idx].token {
                Token::Whitespace => {},
                _ => {
                    return idx;
                },
            }
            idx += 1;
        }
        idx
    }

    /// Parse a single statement.
    pub fn parse_statement(&mut self) -> (r: Result<Statement<'a>, RayexecError>)
        ensures
            final(self).spec_located() == old(self).spec_located(),
            ({
                let p = spec_statement(old(self).spec_tokens(), old(self).spec_idx());
                &&& final(self).spec_idx() == p.idx
                &&& match r {
                    Ok(stmt) => p.result == Ok::<StatementView, RayexecError>(stmt@),
                    Err(e) => p.result == Err::<StatementView, RayexecError>(e),
                }
            }),
    {
        proof {
            use_type_invariant(&*self);
        }
        let tok = match self.next() {
            Some(tok) => tok,
            None => {
                return Err(
                    RayexecError::Syntax { kind: SyntaxError::EmptyStatement, at: self.idx },
                );
            },
        };
        let at = self.idx - 1;
        match tok.token {
            Token::Word(word) => {
                let keyword = match word.keyword {
                    Some(k) => k,
                    None => {
                        return Err(
                            RayexecError::Syntax { kind: SyntaxError::ExpectedKeyword, at },
                        );
                    },
                };
                match keyword {
                    Keyword::CREATE => self.parse_create(),
                    Keyword::SET => self.parse_set(),
                    _ => Err(RayexecError::Syntax { kind: SyntaxError::UnexpectedKeyword, at }),
                }
            },
            _ => Err(RayexecError::Syntax { kind: SyntaxError::ExpectedStatement, at }),
        }
    }

    /// Parses what follows the keyword `CREATE`.
    pub fn parse_create(&mut self) -> (r: Result<Statement<'a>, RayexecError>)
        ensures
            final(self).spec_located() == old(self).spec_located(),
            ({
                let p = spec_create(old(self).spec_tokens(), old(self).spec_idx());
                &&& final(self).spec_idx() == p.idx
                &&& match r {
                    Ok(stmt) => p.result == Ok::<StatementView, RayexecError>(stmt@),
                    Err(e) => p.result == Err::<StatementView, RayexecError>(e),
                }
            }),
    {
        proof {
            use_type_invariant(&*self);
        }
        let or_replace_keywords = [Keyword::OR, Keyword::REPLACE];
        let temp_keywords = [Keyword::TEMP, Keyword::TEMPORARY];
        let exists_keywords = [Keyword::IF, Keyword::NOT, Keyword::EXISTS];
        assert(or_replace_keywords@ =~= seq![Keyword::OR, Keyword::REPLACE]);
        assert(temp_keywords@ =~= seq![Keyword::TEMP, Keyword::TEMPORARY]);
        assert(exists_keywords@ =~= seq![Keyword::IF, Keyword::NOT, Keyword::EXISTS]);
        let or_replace = self.parse_keyword_sequence(or_replace_keywords.as_slice());
        let temp = self.parse_one_of_keywords(temp_keywords.as_slice());

        if self.parse_keyword(Keyword::TABLE) {
            // Table
            Err(RayexecError::NotImplemented)
        } else if self.parse_keyword(Keyword::SCHEMA) {
            // Schema
            proof {
                use_type_invariant(&*self);
            }
            let at = self.idx - 1;
            if or_replace {
                return Err(RayexecError::Syntax { kind: SyntaxError::OrReplaceNotSupported, at });
            }
            if temp {
                return Err(RayexecError::Syntax { kind: SyntaxError::TemporaryNotSupported, at });
            }
            let if_not_exists = self.parse_keyword_sequence(exists_keywords.as_slice());
            let reference = match self.parse_object_reference() {
                Ok(reference) => reference,
                Err(e) => {
                    return Err(e);
                },
            };
            Ok(Statement::CreateSchema { reference, if_not_exists })
        } else {
            Err(RayexecError::NotImplemented)
        }
    }

    /// Parses what follows the keyword `SET`.
    pub fn parse_set(&mut self) -> (r: Result<Statement<'a>, RayexecError>)
        ensures
            final(self).spec_located() == old(self).spec_located(),
            ({
                let p = spec_set(old(self).spec_tokens(), old(self).spec_idx());
                &&& final(self).spec_idx() == p.idx
                &&& match r {
                    Ok(stmt) => p.result == Ok::<StatementView, RayexecError>(stmt@),
                    Err(e) => p.result == Err::<StatementView, RayexecError>(e),
                }
            }),
    {
        let name = match self.parse_object_reference() {
            Ok(name) => name,
            Err(e) => {
                return Err(e);
            },
        };
        if self.parse_keyword(Keyword::TO) || self.consume_token(Token::Eq) {
            let expr = match self.parse_expr() {
                Ok(expr) => expr,
                Err(e) => {
                    return Err(e);
                },
            };
            return Ok(Statement::SetVariable { reference: name, value: expr });
        }
        Err(RayexecError::Syntax { kind: SyntaxError::ExpectedSetValue, at: self.idx })
    }

    /// Parse an object reference.
    #[verifier::loop_isolation(false)]
    pub fn parse_object_reference(&mut self) -> (r: Result<ObjectReference<'a>, RayexecError>)
        ensures
            final(self).spec_located() == old(self).spec_located(),
            ({
                let p = spec_object_reference(
                    old(self).spec_tokens(),
                    old(self).spec_idx(),
                    Seq::empty(),
                );
                &&& final(self).spec_idx() == p.idx
                &&& match r {
                    Ok(reference) => p.result == Ok::<Seq<Seq<char>>, RayexecError>(reference@),
                    Err(e) => p.result == Err::<Seq<Seq<char>>, RayexecError>(e),
                }
            }),
    {
        let ghost toks = self.spec_tokens();
        let ghost begin = self.spec_idx();
        let mut idents: Vec<Ident<'a>> = Vec::new();
        assert(ident_views(idents@) =~= Seq::<Seq<char>>::empty());
        loop
            invariant
                self.spec_located() == old(self).spec_located(),
                toks == self.spec_tokens(),
                0 <= self.spec_idx(),
                spec_object_reference(toks, begin, Seq::empty()) == spec_object_reference(
                    toks,
                    self.spec_idx(),
                    ident_views(idents@),
                ),
            decreases toks.len() - self.spec_idx(),
        {
            proof {
                use_type_invariant(&*self);
                lemma_next_significant(toks, self.spec_idx());
            }
            let tok = match self.next() {
                Some(tok) => tok,
                None => {
                    return Ok(ObjectReference(idents));
                },
            };
            let ident = match tok.token {
                Token::Word(w) => Ident { value: w.value },
                _ => {
                    proof {
                        use_type_invariant(&*self);
                    }
                    return Err(
                        RayexecError::Syntax {
                            kind: SyntaxError::ExpectedObjectReference,
                            at: self.idx - 1,
                        },
                    );
                },
            };
            let ghost prior = ident_views(idents@);
            idents.push(ident);
            assert(ident_views(idents@) =~= prior.push(ident.value@));

            // Check if the next token is a period for possible compound
            // identifiers. If not, we're done.
            proof {
                lemma_next_significant(toks, self.spec_idx());
            }
            if !self.consume_token(Token::Period) {
                return Ok(ObjectReference(idents));
            }
        }
    }

    /// Parse a sql expression.
    pub fn parse_expr(&mut self) -> (r: Result<Expr<'a>, RayexecError>)
        ensures
            final(self).spec_located() == old(self).spec_located(),
            ({
                let p = spec_prefix_expr(old(self).spec_tokens(), old(self).spec_idx());
                &&& final(self).spec_idx() == p.idx
                &&& match r {
                    Ok(expr) => p.result == Ok::<ExprView, RayexecError>(expr@),
                    Err(e) => p.result == Err::<ExprView, RayexecError>(e),
                }
            }),
    {
        self.parse_prefix_expr()
    }

    /// Parses an expression that stands at the beginning of an expression.
    pub fn parse_prefix_expr(&mut self) -> (r: Result<Expr<'a>, RayexecError>)
        ensures
            final(self).spec_located() == old(self).spec_located(),
            ({
                let p = spec_prefix_expr(old(self).spec_tokens(), old(self).spec_idx());
                &&& final(self).spec_idx() == p.idx
                &&& match r {
                    Ok(expr) => p.result == Ok::<ExprView, RayexecError>(expr@),
                    Err(e) => p.result == Err::<ExprView, RayexecError>(e),
                }
            }),
    {
        proof {
            use_type_invariant(&*self);
        }
        let tok = match self.next() {
            Some(tok) => tok,
            None => {
                return Err(
                    RayexecError::Syntax { kind: SyntaxError::UnexpectedEnd, at: self.idx },
                );
            },
        };
        proof {
            use_type_invariant(&*self);
        }
        let at = self.idx - 1;
        match tok.token {
            Token::Word(w) => match w.keyword {
                Some(Keyword::TRUE) => Ok(Expr::Literal(Literal::Boolean(true))),
                Some(Keyword::FALSE) => Ok(Expr::Literal(Literal::Boolean(false))),
                Some(Keyword::NULL) => Ok(Expr::Literal(Literal::Null)),
                _ => Err(RayexecError::NotImplemented),
            },
            Token::SingleQuotedString(s) => Ok(Expr::Literal(Literal::SingleQuotedString(s))),
            Token::Number(s) => Ok(Expr::Literal(Literal::Number(s))),
            _ => Err(RayexecError::Syntax { kind: SyntaxError::ExpectedExpression, at }),
        }
    }

    /// Get the next token without altering the current index.
    ///
    /// Ignores whitespace.
    #[verifier::loop_isolation(false)]
    pub fn peek(&self) -> (r: Option<TokenWithLocation<'a>>)
        ensures
            ({
                let at = next_significant(self.spec_tokens(), self.spec_idx());
                match r {
                    Some(tok) => 0 <= at < self.spec_tokens().len() && tok
                        == self.spec_located()[at],
                    None => at >= self.spec_tokens().len(),
                }
            }),
    {
        let ghost toks = self.spec_tokens();
        let mut idx = self.idx;
        loop
            invariant
                toks == self.spec_tokens(),
                self.idx <= idx,
                next_significant(toks, self.spec_idx()) == next_significant(toks, idx as int),
            decreases self.toks.len() - idx,
        {
            if idx >= self.toks.len() {
                return None;
            }
            let tok = self.toks[idx];
            assert(toks[idx as int] == tok.token@);
            idx += 1;
            match tok.token {
                Token::Whitespace => {},
                _ => {
                    return Some(tok);
                },
            }
        }
    }
}

} // verus!
