//! The token cursor.

use crate::ast::{
    Expr, ExprKind, ExprKindModel, ExprModel, ParamArg, ParamArgModel, Stmt, StmtKind,
    StmtKindModel, StmtModel, Type, TypeModel, source_args_view,
};
use crate::parser::{ParseError, ParseErrorModel, reject, self_rooted, unexpected};
use crate::text::str_eq;
use crate::token::{LexError, LexErrorModel, Token, TokenModel};
use vstd::prelude::*;

verus! {

/// What a lexer hands out: a token with its byte range, or its error.
pub type Lexed = Result<(Token, (usize, usize)), LexError>;

/// Model of a [`Lexed`].
pub type LexedModel = Result<(TokenModel, (usize, usize)), LexErrorModel>;

/// Model of what a lexer hands out.
pub open spec fn lexed_view(x: Lexed) -> LexedModel {
    match x {
        Ok((token, span)) => Ok((token@, span)),
        Err(e) => Err(e@),
    }
}

/// A place in a stream of tokens.
#[verifier::ext_equal]
pub struct Cursor {
    /// The tokens ahead.
    pub rest: Seq<LexedModel>,
    /// The range of the last token read.
    pub last_span: (usize, usize),
    /// The end of the last token read that is no layout.
    pub significant_end: usize,
    /// Whether the last statement ended with `;`.
    pub semicolon: bool,
}

/// The number of tokens ahead.
pub open spec fn left(s: Cursor) -> nat {
    s.rest.len()
}

/// What reading comes to: a value, or an error, each with the place it leaves off at.
pub type Parsed<T> = Result<(Cursor, T), (Cursor, ParseErrorModel)>;

/// A parser over the tokens of a lexer.
pub struct Parser {
    /// The tokens ahead, the next one last.
    pub tokens: Vec<Lexed>,
    /// The range of the last token read.
    pub last_span: (usize, usize),
    /// The end of the last token read that is no layout.
    pub last_significant_end: usize,
    /// Whether the last statement ended with `;` rather than a line or the input.
    pub last_stmt_ended_with_semicolon: bool,
}

impl View for Parser {
    type V = Cursor;

    open spec fn view(&self) -> Cursor {
        Cursor {
            rest: Seq::new(self.tokens@.len(), |i: int| lexed_view(self.tokens@[self.tokens@.len() - 1 - i])),
            last_span: self.last_span,
            significant_end: self.last_significant_end,
            semicolon: self.last_stmt_ended_with_semicolon,
        }
    }
}

/// Whether a token is layout.
pub open spec fn is_layout(t: TokenModel) -> bool {
    t is Newline || t is Indent || t is Dedent || t is Eof
}

/// The place behind a token.
pub open spec fn behind(s: Cursor, token: TokenModel, span: (usize, usize)) -> Cursor {
    Cursor {
        rest: s.rest.drop_first(),
        last_span: span,
        significant_end: if is_layout(token) { s.significant_end } else { span.1 },
        semicolon: s.semicolon,
    }
}

/// The place behind an error of the lexer.
pub open spec fn past_error(s: Cursor) -> Cursor {
    Cursor { rest: s.rest.drop_first(), ..s }
}

/// Reading one token.
pub open spec fn taken(s: Cursor) -> Parsed<TokenModel> {
    if s.rest.len() == 0 {
        Err((s, ParseErrorModel::UnexpectedEof("Expected a token, found EOF"@)))
    } else {
        match s.rest[0] {
            Ok((token, span)) => Ok((behind(s, token, span), token)),
            Err(e) => Err((past_error(s), ParseErrorModel::LexerError(e))),
        }
    }
}

/// The token ahead, if any.
pub open spec fn peeked(s: Cursor) -> Result<Option<TokenModel>, (Cursor, ParseErrorModel)> {
    if s.rest.len() == 0 {
        Ok(None)
    } else {
        match s.rest[0] {
            Ok((token, _)) => Ok(Some(token)),
            Err(e) => Err((s, ParseErrorModel::LexerError(e))),
        }
    }
}

/// The failure of reading that does not move on. No reading does that.
pub open spec fn stalled<T>(s: Cursor) -> Parsed<T> {
    Err((s, ParseErrorModel::UnexpectedEof("Expected to read a token"@)))
}

/// Where the token ahead starts, or else where the last one ended.
pub open spec fn start_ahead(s: Cursor) -> usize {
    if s.rest.len() == 0 {
        s.last_span.1
    } else {
        match s.rest[0] {
            Ok((_, span)) => span.0,
            Err(_) => s.last_span.1,
        }
    }
}

/// Reading a token that has to be the given one.
pub open spec fn expected(s: Cursor, wanted: TokenModel, message: Seq<char>) -> Parsed<()> {
    match taken(s) {
        Err(f) => Err(f),
        Ok((s, token)) => if token == wanted { Ok((s, ())) } else { Err((s, unexpected(token, message))) },
    }
}

/// Reading a name.
pub open spec fn identifier(s: Cursor, message: Seq<char>) -> Parsed<Seq<char>> {
    match taken(s) {
        Err(f) => Err(f),
        Ok((s, token)) => match token {
            TokenModel::Identifier(name) => Ok((s, name)),
            _ => Err((s, unexpected(token, message))),
        },
    }
}

/// An expression with its range.
pub open spec fn expr_at(kind: ExprKindModel, span: (usize, usize)) -> ExprModel {
    ExprModel { kind, span }
}

/// A statement with its range.
pub open spec fn stmt_at(kind: StmtKindModel, span: (usize, usize)) -> StmtModel {
    StmtModel { kind, span }
}

/// An expression from an offset to the end of the last token read.
pub open spec fn node_at(s: Cursor, kind: ExprKindModel, from: usize) -> ExprModel {
    expr_at(kind, (from, s.last_span.1))
}

impl Expr {
    /// An expression with its range.
    pub fn new(kind: ExprKind, span: (usize, usize)) -> (r: Expr)
        ensures
            r@ == expr_at(kind@, span),
    {
        Expr { kind, span }
    }
}

impl Stmt {
    /// A statement with its range.
    pub fn new(kind: StmtKind, span: (usize, usize)) -> (r: Stmt)
        ensures
            r@ == stmt_at(kind@, span),
    {
        Stmt { kind, span }
    }
}

/// The model of a token, if any.
pub open spec fn ahead(t: Option<Token>) -> Option<TokenModel> {
    match t {
        Some(x) => Some(x@),
        None => None,
    }
}

/// Whether the token ahead is the given one.
pub fn token_is(t: &Option<Token>, wanted: &Token) -> (r: bool)
    ensures
        r == (ahead(*t) == Some(wanted@)),
{
    match t {
        Some(x) => x.same(wanted),
        None => false,
    }
}

/// Whether the token ahead is a given word.
pub open spec fn is_word(t: Option<TokenModel>, word: Seq<char>) -> bool {
    t == Some(TokenModel::Identifier(word))
}

/// Whether the token ahead is a given word.
pub fn word_is(t: &Option<Token>, word: &str) -> (r: bool)
    ensures
        r == is_word(ahead(*t), word@),
{
    match t {
        Some(Token::Identifier(name)) => str_eq(name, word),
        _ => false,
    }
}

/// Whether the token ahead is a name.
pub open spec fn names_something(t: Option<TokenModel>) -> bool {
    match t {
        Some(x) => x is Identifier,
        None => false,
    }
}

/// Whether the token ahead is a name.
pub fn is_name(t: &Option<Token>) -> (r: bool)
    ensures
        r == names_something(ahead(*t)),
{
    match t {
        Some(Token::Identifier(_)) => true,
        _ => false,
    }
}

/// Whether the token ahead is a triple-quoted string.
pub open spec fn is_docstring(t: Option<TokenModel>) -> bool {
    match t {
        Some(x) => x is TripleStringLiteral,
        None => false,
    }
}

/// Whether the token ahead is a triple-quoted string.
pub fn docstring_is(t: &Option<Token>) -> (r: bool)
    ensures
        r == is_docstring(ahead(*t)),
{
    match t {
        Some(Token::TripleStringLiteral(_)) => true,
        _ => false,
    }
}

/// The end of a statement: a line, a `;`, or the end of the input, which stays ahead.
pub open spec fn ended(s: Cursor) -> Parsed<()> {
    match peeked(s) {
        Err(f) => Err(f),
        Ok(t) => if t is None || t == Some(TokenModel::Eof) {
            Ok((Cursor { semicolon: false, ..s }, ()))
        } else {
            match taken(s) {
                Err(f) => Err(f),
                Ok((s, token)) => if token is Newline {
                    Ok((Cursor { semicolon: false, ..s }, ()))
                } else if token is Semicolon {
                    Ok((Cursor { semicolon: true, ..s }, ()))
                } else {
                    Err((s, unexpected(token, "Expected the end of the statement"@)))
                },
            }
        },
    }
}

/// The place behind one token or one error of the lexer.
pub open spec fn discarded(s: Cursor) -> Cursor {
    match taken(s) {
        Ok((s, _)) => s,
        Err((s, _)) => s,
    }
}

/// Whether a token ends the search for the next statement.
pub open spec fn is_boundary(t: TokenModel) -> bool {
    t is Newline || t is Semicolon || t is Dedent || t is Eof
}

/// The place behind the next boundary of statements.
pub open spec fn synchronized(s: Cursor) -> Cursor
    decreases left(s),
{
    if s.rest.len() == 0 {
        s
    } else {
        match s.rest[0] {
            Ok((token, span)) => {
                let next = Cursor { last_span: span, ..past_error(s) };
                if is_boundary(token) { next } else { synchronized(next) }
            },
            Err(_) => synchronized(past_error(s)),
        }
    }
}

impl Parser {
    /// A parser over the tokens of a lexer.
    pub fn new(tokens: Vec<Lexed>) -> (r: Parser)
        ensures
            r@.rest == Seq::new(tokens@.len(), |i: int| lexed_view(tokens@[i])),
            r@.last_span == (0usize, 0usize),
            r@.significant_end == 0,
            !r@.semicolon,
    {
        let ghost given = tokens@;
        let mut tokens = tokens;
        let mut reversed: Vec<Lexed> = Vec::new();
        while tokens.len() > 0
            invariant
                tokens@.len() + reversed@.len() == given.len(),
                tokens@ == given.take(tokens@.len() as int),
                forall|i: int| 0 <= i < reversed@.len() ==> #[trigger] reversed@[i] == given[given.len() - 1 - i],
            decreases tokens@.len(),
        {
            let ghost before = tokens@;
            if let Some(x) = tokens.pop() {
                assert(x == given[before.len() - 1]);
                reversed.push(x);
                assert(tokens@ =~= given.take(tokens@.len() as int));
            }
        }
        let r = Parser {
            tokens: reversed,
            last_span: (0, 0),
            last_significant_end: 0,
            last_stmt_ended_with_semicolon: false,
        };
        assert(r@.rest =~= Seq::new(given.len(), |i: int| lexed_view(given[i])));
        r
    }

    /// Reads the next token.
    pub fn next_token(&mut self) -> (r: Result<Token, ParseError>)
        ensures
            told_token(r, final(self)@) == taken(old(self)@),
            left(final(self)@) <= left(old(self)@),
            r is Ok ==> left(final(self)@) < left(old(self)@),
    {
        let ghost before = self@;
        match self.tokens.pop() {
            None => {
                assert(self@ =~= before);
                Err(ParseError::UnexpectedEof("Expected a token, found EOF".to_owned()))
            },
            Some(x) => {
                assert(self@.rest =~= before.rest.drop_first());
                assert(before.rest[0] == lexed_view(x));
                match x {
                    Err(e) => {
                        assert(self@ =~= past_error(before));
                        Err(ParseError::LexerError(e))
                    },
                    Ok((token, span)) => {
                        self.last_span = span;
                        let layout: bool = match &token {
                            Token::Newline | Token::Indent | Token::Dedent | Token::Eof => true,
                            _ => false,
                        };
                        if !layout {
                            self.last_significant_end = span.1;
                        }
                        assert(self@.rest =~= before.rest.drop_first());
                        assert(self@ =~= behind(before, token@, span));
                        Ok(token)
                    },
                }
            },
        }
    }

    /// The token ahead, if any.
    pub fn peek_token(&self) -> (r: Result<Option<Token>, ParseError>)
        ensures
            match r {
                Ok(t) => peeked(self@) == Ok::<Option<TokenModel>, (Cursor, ParseErrorModel)>(ahead(t)),
                Err(e) => peeked(self@) == Err::<Option<TokenModel>, (Cursor, ParseErrorModel)>((self@, e@)),
            },
    {
        let n: usize = self.tokens.len();
        if n == 0 {
            return Ok(None);
        }
        assert(self@.rest[0] == lexed_view(self.tokens@[n - 1]));
        match &self.tokens[n - 1] {
            Ok((token, _)) => Ok(Some(token.copy())),
            Err(e) => Err(ParseError::LexerError(e.copy())),
        }
    }

    /// Where the token ahead starts, or else where the last one ended.
    pub fn peek_start(&self) -> (r: usize)
        ensures
            r == start_ahead(self@),
    {
        let n: usize = self.tokens.len();
        if n == 0 {
            return self.last_span.1;
        }
        assert(self@.rest[0] == lexed_view(self.tokens@[n - 1]));
        match &self.tokens[n - 1] {
            Ok((_, span)) => span.0,
            Err(_) => self.last_span.1,
        }
    }

    /// An expression from an offset to the end of the last token read.
    pub fn node(&self, kind: ExprKind, start: usize) -> (r: Expr)
        ensures
            r@ == node_at(self@, kind@, start),
    {
        Expr::new(kind, (start, self.last_span.1))
    }

    /// Reads a token, which has to be the given one.
    pub fn expect(&mut self, wanted: Token, message: &str) -> (r: Result<(), ParseError>)
        ensures
            told_unit(r, final(self)@) == expected(old(self)@, wanted@, message@),
            left(final(self)@) <= left(old(self)@),
            r is Ok ==> left(final(self)@) < left(old(self)@),
    {
        let token = self.next_token()?;
        if token.same(&wanted) {
            Ok(())
        } else {
            Err(reject(token, message))
        }
    }

    /// Reads a name.
    pub fn expect_identifier(&mut self, message: &str) -> (r: Result<String, ParseError>)
        ensures
            told_word(r, final(self)@) == identifier(old(self)@, message@),
            left(final(self)@) <= left(old(self)@),
            r is Ok ==> left(final(self)@) < left(old(self)@),
    {
        match self.next_token()? {
            Token::Identifier(name) => Ok(name),
            token => Err(reject(token, message)),
        }
    }

    /// Reads the end of a statement.
    pub fn expect_stmt_end(&mut self) -> (r: Result<(), ParseError>)
        ensures
            told_unit(r, final(self)@) == ended(old(self)@),
            left(final(self)@) <= left(old(self)@),
    {
        let ghost before = self@;
        let t: Option<Token> = self.peek_token()?;
        if t.is_none() || token_is(&t, &Token::Eof) {
            self.last_stmt_ended_with_semicolon = false;
            assert(self@.rest =~= before.rest);
            return Ok(());
        }
        let token = self.next_token()?;
        let ghost behind_token = self@;
        match token {
            Token::Newline => {
                self.last_stmt_ended_with_semicolon = false;
                assert(self@.rest =~= behind_token.rest);
                Ok(())
            },
            Token::Semicolon => {
                self.last_stmt_ended_with_semicolon = true;
                assert(self@.rest =~= behind_token.rest);
                Ok(())
            },
            other => Err(reject(other, "Expected the end of the statement")),
        }
    }

    /// Passes one token or one error of the lexer: recovery always moves on.
    pub fn discard_one(&mut self)
        ensures
            final(self)@ == discarded(old(self)@),
            left(final(self)@) <= left(old(self)@),
            left(old(self)@) > 0 ==> left(final(self)@) < left(old(self)@),
    {
        let r = self.next_token();
        assert(r is Ok || r is Err);
    }

    /// Passes everything up to the next boundary of statements. The lexer gives no
    /// newline inside open delimiters, so these boundaries are reliable.
    pub fn synchronize_statement(&mut self)
        ensures
            final(self)@ == synchronized(old(self)@),
            left(final(self)@) <= left(old(self)@),
            left(old(self)@) > 0 ==> left(final(self)@) < left(old(self)@),
    {
        loop
            invariant
                synchronized(self@) == synchronized(old(self)@),
                left(self@) <= left(old(self)@),
            decreases left(self@),
        {
            let ghost before = self@;
            match self.tokens.pop() {
                None => {
                    assert(self@ =~= before);
                    return;
                },
                Some(x) => {
                    assert(self@.rest =~= before.rest.drop_first());
                    assert(before.rest[0] == lexed_view(x));
                    match x {
                        Err(_) => {
                            assert(self@ =~= past_error(before));
                        },
                        Ok((token, span)) => {
                            self.last_span = span;
                            assert(self@.rest =~= before.rest.drop_first());
                            assert(self@ =~= (Cursor { last_span: span, ..past_error(before) }));
                            let boundary: bool = match &token {
                                Token::Newline | Token::Semicolon | Token::Dedent | Token::Eof => true,
                                _ => false,
                            };
                            if boundary {
                                return;
                            }
                        },
                    }
                },
            }
        }
    }

    /// A chain of projections rooted at `Self.o` as the origin expression it spells.
    pub fn rematerialize_self_param_chain(&self, ty: &Type, start: usize) -> (r: Option<Expr>)
        ensures
            match r {
                Some(e) => chain_expression(self@, ty@, start) == Some(e@),
                None => chain_expression(self@, ty@, start) is None,
            },
        decreases ty,
    {
        match ty {
            Type::SelfParam(param) => {
                let object = self.node(ExprKind::Identifier("Self".to_owned()), start);
                Some(self.node(ExprKind::Member { object: Box::new(object), field: param.clone() }, start))
            },
            Type::Assoc { base, name, args } => {
                let base = match self.rematerialize_self_param_chain(base, start) {
                    Some(e) => e,
                    None => return None,
                };
                let member = self.node(
                    ExprKind::Member { object: Box::new(base), field: name.clone() },
                    start,
                );
                assert(source_args_view(*args).len() == args@.len());
                if args.len() == 0 {
                    return Some(member);
                }
                assert(source_args_view(*args)[0] == args@[0]@);
                if args.len() == 1 {
                    if let ParamArg::Value(index) = &args[0] {
                        return Some(
                            self.node(
                                ExprKind::Index { object: Box::new(member), index: Box::new(index.copy()) },
                                start,
                            ),
                        );
                    }
                }
                None
            },
            Type::IndexedProjection { base, index } => {
                match self.rematerialize_self_param_chain(base, start) {
                    Some(e) => Some(
                        self.node(
                            ExprKind::Index { object: Box::new(e), index: Box::new(index.copy()) },
                            start,
                        ),
                    ),
                    None => None,
                }
            },
            _ => None,
        }
    }
}

/// The origin expression that a chain of projections rooted at `Self.o` spells.
pub open spec fn chain_expression(s: Cursor, ty: TypeModel, from: usize) -> Option<ExprModel>
    decreases ty,
{
    match ty {
        TypeModel::SelfParam(param) => Some(
            node_at(
                s,
                ExprKindModel::Member {
                    object: Box::new(node_at(s, ExprKindModel::Identifier("Self"@), from)),
                    field: param,
                },
                from,
            ),
        ),
        TypeModel::Assoc { base, name, args } => match chain_expression(s, *base, from) {
            None => None,
            Some(e) => {
                let member = node_at(s, ExprKindModel::Member { object: Box::new(e), field: name }, from);
                if args.len() == 0 {
                    Some(member)
                } else if args.len() == 1 {
                    match args[0] {
                        ParamArgModel::Value(index) => Some(
                            node_at(
                                s,
                                ExprKindModel::Index { object: Box::new(member), index: Box::new(index) },
                                from,
                            ),
                        ),
                        _ => None,
                    }
                } else {
                    None
                }
            },
        },
        TypeModel::IndexedProjection { base, index } => match chain_expression(s, *base, from) {
            None => None,
            Some(e) => Some(node_at(s, ExprKindModel::Index { object: Box::new(e), index }, from)),
        },
        _ => None,
    }
}

/// Exactly the types that the test accepts are read again as expressions.
pub proof fn law_rooted_chains_are_expressions(s: Cursor, ty: TypeModel, from: usize)
    ensures
        chain_expression(s, ty, from) is Some == self_rooted(ty),
    decreases ty,
{
    match ty {
        TypeModel::Assoc { base, name: _, args: _ } => law_rooted_chains_are_expressions(s, *base, from),
        TypeModel::IndexedProjection { base, index: _ } => law_rooted_chains_are_expressions(s, *base, from),
        _ => {},
    }
}

/// What reading nothing comes to, and where it leaves off.
pub open spec fn told_unit(r: Result<(), ParseError>, s: Cursor) -> Parsed<()> {
    match r {
        Ok(v) => Ok((s, v)),
        Err(e) => Err((s, e@)),
    }
}

/// What reading a word comes to, and where it leaves off.
pub open spec fn told_word(r: Result<String, ParseError>, s: Cursor) -> Parsed<Seq<char>> {
    match r {
        Ok(v) => Ok((s, v@)),
        Err(e) => Err((s, e@)),
    }
}

/// What reading a token comes to, and where it leaves off.
pub open spec fn told_token(r: Result<Token, ParseError>, s: Cursor) -> Parsed<TokenModel> {
    match r {
        Ok(v) => Ok((s, v@)),
        Err(e) => Err((s, e@)),
    }
}

} // verus!
