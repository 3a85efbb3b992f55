//! Compound statements, blocks and suites.

use crate::ast::{
    Decorator, DecoratorModel, Expr, ExprModel, LoopBindingMode, Stmt, StmtKind, StmtKindModel,
    StmtModel, decorators_view, expr_stmts_list_view, opt_opt_string_stmts_view, opt_stmts_view,
    stmts_view,
};
use crate::parser::{ParseError, ParseErrorModel, Precedence, located, reject, unexpected};
use crate::parser::driver::{
    Cursor, Parsed, Parser, ahead, docstring_is, expected, identifier, is_docstring, is_word, left,
    peeked, stalled, start_ahead, stmt_at, taken, token_is, word_is,
};
use crate::parser::stmts::{
    Grammar, callable_effects, capture_list, comptime_constant, decorators, expr_or_assign,
    from_import, handler_name, import_stmt, loop_head, no_decorators, no_stmts, no_with_items,
    raise_stmt, ref_decl, result_type, return_stmt, told_kind, trailing_effects, var_decl,
    where_clauses, with_items, word_stmt,
};
use crate::token::{Token, TokenModel};
use vstd::prelude::*;

verus! {

/// What reading a statement comes to, and where it leaves off.
pub open spec fn told_stmt(r: Result<Stmt, ParseError>, s: Cursor) -> Parsed<StmtModel> {
    match r {
        Ok(v) => Ok((s, v@)),
        Err(e) => Err((s, e@)),
    }
}

/// What reading statements comes to, and where it leaves off.
pub open spec fn told_stmts(r: Result<Vec<Stmt>, ParseError>, s: Cursor) -> Parsed<Seq<StmtModel>> {
    match r {
        Ok(v) => Ok((s, stmts_view(v))),
        Err(e) => Err((s, e@)),
    }
}

/// What reading statements, if any comes to, and where it leaves off.
pub open spec fn told_opt_stmts(
    r: Result<Option<Vec<Stmt>>, ParseError>,
    s: Cursor,
) -> Parsed<Option<Seq<StmtModel>>> {
    match r {
        Ok(v) => Ok((s, opt_stmts_view(v))),
        Err(e) => Err((s, e@)),
    }
}

/// What reading a condition and its statements comes to, and where it leaves off.
pub open spec fn told_clause(
    r: Result<(Expr, Vec<Stmt>), ParseError>,
    s: Cursor,
) -> Parsed<(ExprModel, Seq<StmtModel>)> {
    match r {
        Ok(v) => Ok((s, (v.0@, stmts_view(v.1)))),
        Err(e) => Err((s, e@)),
    }
}

/// What reading clauses comes to, and where it leaves off.
pub open spec fn told_clauses(
    r: Result<Vec<(Expr, Vec<Stmt>)>, ParseError>,
    s: Cursor,
) -> Parsed<Seq<(ExprModel, Seq<StmtModel>)>> {
    match r {
        Ok(v) => Ok((s, expr_stmts_list_view(v))),
        Err(e) => Err((s, e@)),
    }
}

/// What reading a chain of clauses comes to, and where it leaves off.
pub open spec fn told_chain(r: Result<IfChain, ParseError>, s: Cursor) -> Parsed<IfChainModel> {
    match r {
        Ok(v) => Ok((s, (expr_stmts_list_view(v.0), opt_stmts_view(v.1)))),
        Err(e) => Err((s, e@)),
    }
}

/// What reading a handler, if any comes to, and where it leaves off.
pub open spec fn told_handler(
    r: Result<Option<(Option<String>, Vec<Stmt>)>, ParseError>,
    s: Cursor,
) -> Parsed<Option<(Option<Seq<char>>, Seq<StmtModel>)>> {
    match r {
        Ok(v) => Ok((s, opt_opt_string_stmts_view(v))),
        Err(e) => Err((s, e@)),
    }
}

/// What reading a loop comes to, and where it leaves off.
pub open spec fn told_loop(
    r: Result<(String, LoopBindingMode, Expr, Vec<Stmt>), ParseError>,
    s: Cursor,
) -> Parsed<(Seq<char>, LoopBindingMode, ExprModel, Seq<StmtModel>)> {
    match r {
        Ok(v) => Ok((s, (v.0@, v.1, v.2@, stmts_view(v.3)))),
        Err(e) => Err((s, e@)),
    }
}
/// The branches of an `if` and its `else`.
pub type IfChain = (Vec<(Expr, Vec<Stmt>)>, Option<Vec<Stmt>>);

/// Model of [`IfChain`].
pub type IfChainModel = (Seq<(ExprModel, Seq<StmtModel>)>, Option<Seq<StmtModel>>);

/// A list of one clause.
fn one_clause(x: (Expr, Vec<Stmt>)) -> (r: Vec<(Expr, Vec<Stmt>)>)
    ensures
        expr_stmts_list_view(r) == seq![(x.0@, stmts_view(x.1))],
{
    let mut r: Vec<(Expr, Vec<Stmt>)> = Vec::new();
    r.push(x);
    assert(expr_stmts_list_view(r) =~= seq![(x.0@, stmts_view(x.1))]);
    r
}

/// The token ahead, or the end of the input.
pub open spec fn token_or_end(t: Option<TokenModel>) -> TokenModel {
    match t {
        Some(x) => x,
        None => TokenModel::Eof,
    }
}

fn or_end(t: Option<Token>) -> (r: Token)
    ensures
        r@ == token_or_end(ahead(t)),
{
    match t {
        Some(x) => x,
        None => Token::Eof,
    }
}

/// The rejection of the removed `unified` captures.
pub open spec fn unified_removed() -> ParseErrorModel {
    unexpected(
        TokenModel::Identifier("unified"@),
        "the removed 'unified {...}' capture spelling is not accepted; write the capture list after the effects clause, e.g. 'def f() {mut x}:'"@,
    )
}

fn reject_unified() -> (r: ParseError)
    ensures
        r@ == unified_removed(),
{
    reject(
        Token::Identifier("unified".to_owned()),
        "the removed 'unified {...}' capture spelling is not accepted; write the capture list after the effects clause, e.g. 'def f() {mut x}:'",
    )
}

/// A statement: its kind, from the first token to the last one that is no layout. An
/// error has the place of the token that it was found at.
pub open spec fn statement<G: Grammar>(g: G, start: Cursor) -> Parsed<StmtModel>
    decreases left(start), 8int,
{
    match statement_kind(g, start) {
        Err((s, e)) => Err((s, located(e, s.last_span))),
        Ok((s, kind)) => Ok((s, stmt_at(kind, (start_ahead(start), s.significant_end)))),
    }
}

impl Parser {
    /// Reads a statement.
    pub fn parse_statement<G: Grammar>(&mut self, g: &G) -> (r: Result<Stmt, ParseError>)
        ensures
            told_stmt(r, final(self)@) == statement(*g, old(self)@),
            left(final(self)@) <= left(old(self)@),
            r is Ok ==> left(final(self)@) < left(old(self)@),
        decreases left(old(self)@), 8int,
    {
        let start: usize = self.peek_start();
        match self.parse_statement_kind(g) {
            Err(e) => Err(e.at(self.last_span)),
            Ok(kind) => Ok(Stmt::new(kind, (start, self.last_significant_end))),
        }
    }
}

/// A condition, a `:` and a suite.
pub open spec fn condition_block<G: Grammar>(
    g: G,
    start: Cursor,
    message: Seq<char>,
) -> Parsed<(ExprModel, Seq<StmtModel>)>
    decreases left(start), 2int,
{
    let s = start;
    match g.expression(s, Precedence::Lowest) { Err(f) => Err(f), Ok((s, cond)) =>
    match expected(s, TokenModel::Colon, message) { Err(f) => Err(f), Ok((s, _)) =>
    match (if left(s) < left(start) { suite(g, s) } else { stalled(s) }) { Err(f) => Err(f), Ok((s, body)) =>
    Ok((s, (cond, body))) }}}
}

/// The `elif` clauses of a chain.
pub open spec fn elif_rest<G: Grammar>(
    g: G,
    start: Cursor,
    branches: Seq<(ExprModel, Seq<StmtModel>)>,
) -> Parsed<Seq<(ExprModel, Seq<StmtModel>)>>
    decreases left(start), 3int,
{
    let s = start;
    match peeked(s) { Err(f) => Err(f), Ok(t) =>
    if !(t == Some(TokenModel::Elif)) {
        Ok((s, branches))
    } else {
    match taken(s) { Err(f) => Err(f), Ok((s, _)) =>
    match (if left(s) < left(start) { condition_block(g, s, "Expected ':' after the elif condition"@) } else { stalled(s) }) {
    Err(f) => Err(f), Ok((s, clause)) =>
    { let branches = branches.push(clause);
    if left(s) < left(start) { elif_rest(g, s, branches) } else { stalled(s) } }}}}}
}

/// An `else` and its suite, if any.
pub open spec fn else_part<G: Grammar>(
    g: G,
    start: Cursor,
    message: Seq<char>,
) -> Parsed<Option<Seq<StmtModel>>>
    decreases left(start), 2int,
{
    let s = start;
    match peeked(s) { Err(f) => Err(f), Ok(t) =>
    if !(t == Some(TokenModel::Else)) {
        Ok((s, None))
    } else {
    match taken(s) { Err(f) => Err(f), Ok((s, _)) =>
    match expected(s, TokenModel::Colon, message) { Err(f) => Err(f), Ok((s, _)) =>
    match (if left(s) < left(start) { suite(g, s) } else { stalled(s) }) { Err(f) => Err(f), Ok((s, body)) =>
    Ok((s, Some(body))) }}}}}
}

/// A chain of `if`, `elif` and `else`.
pub open spec fn if_rest<G: Grammar>(g: G, start: Cursor) -> Parsed<IfChainModel>
    decreases left(start), 4int,
{
    let s = start;
    match expected(s, TokenModel::If, "Expected 'if'"@) { Err(f) => Err(f), Ok((s, _)) =>
    match (if left(s) < left(start) { condition_block(g, s, "Expected ':' after the if condition"@) } else { stalled(s) }) {
    Err(f) => Err(f), Ok((s, first)) =>
    match (if left(s) < left(start) { elif_rest(g, s, seq![first]) } else { stalled(s) }) {
    Err(f) => Err(f), Ok((s, branches)) =>
    match (if left(s) < left(start) { else_part(g, s, "Expected ':' after 'else'"@) } else { stalled(s) }) {
    Err(f) => Err(f), Ok((s, orelse)) =>
    Ok((s, (branches, orelse))) }}}}
}

/// `if cond: <block> (elif cond: <block>)* (else: <block>)?`
pub open spec fn if_stmt<G: Grammar>(g: G, start: Cursor) -> Parsed<StmtKindModel>
    decreases left(start), 5int,
{
    let s = start;
    match (if_rest(g, s)) { Err(f) => Err(f), Ok((s, chain)) =>
    Ok((s, StmtKindModel::If { branches: chain.0, orelse: chain.1 })) }
}

/// An `else` behind a loop, if any.
pub open spec fn loop_else<G: Grammar>(g: G, start: Cursor) -> Parsed<Option<Seq<StmtModel>>>
    decreases left(start), 3int,
{
    let s = start;
    else_part(g, s, "Expected ':' after loop 'else'"@)
}

/// `while cond: <block> [else: <block>]`
pub open spec fn while_stmt<G: Grammar>(g: G, start: Cursor) -> Parsed<StmtKindModel>
    decreases left(start), 5int,
{
    let s = start;
    match expected(s, TokenModel::While, "Expected 'while'"@) { Err(f) => Err(f), Ok((s, _)) =>
    match (if left(s) < left(start) { condition_block(g, s, "Expected ':' after the while condition"@) } else { stalled(s) }) {
    Err(f) => Err(f), Ok((s, clause)) =>
    match (if left(s) < left(start) { loop_else(g, s) } else { stalled(s) }) {
    Err(f) => Err(f), Ok((s, orelse)) =>
    Ok((s, StmtKindModel::While { cond: clause.0, body: clause.1, orelse })) }}}
}

/// A loop over an iterable and its suite.
pub open spec fn for_rest<G: Grammar>(g: G, start: Cursor) -> Parsed<(Seq<char>, LoopBindingMode, ExprModel, Seq<StmtModel>)>
    decreases left(start), 2int,
{
    let s = start;
    match loop_head(g, s) { Err(f) => Err(f), Ok((s, head)) =>
    match (if left(s) < left(start) { suite(g, s) } else { stalled(s) }) { Err(f) => Err(f), Ok((s, body)) =>
    Ok((s, (head.0, head.1, head.2, body))) }}
}

/// `for [ref | var] name in iter: <block> [else: <block>]`
pub open spec fn for_stmt<G: Grammar>(g: G, start: Cursor) -> Parsed<StmtKindModel>
    decreases left(start), 5int,
{
    let s = start;
    match for_rest(g, s) { Err(f) => Err(f), Ok((s, head)) =>
    match (if left(s) < left(start) { loop_else(g, s) } else { stalled(s) }) {
    Err(f) => Err(f), Ok((s, orelse)) =>
    Ok((s, StmtKindModel::For { var: head.0, binding: head.1, iter: head.2, body: head.3, orelse })) }}
}

/// A compile-time loop, which binds its variable plainly.
pub open spec fn comptime_for<G: Grammar>(g: G, start: Cursor) -> Parsed<StmtKindModel>
    decreases left(start), 5int,
{
    let s = start;
    match for_rest(g, s) { Err(f) => Err(f), Ok((s, head)) =>
    if head.1 != LoopBindingMode::Immutable {
        Err((s, unexpected(TokenModel::For, "comptime for cannot use an explicit ref/var binding"@)))
    } else {
    Ok((s, StmtKindModel::ComptimeFor { var: head.0, iter: head.2, body: head.3 })) }}
}

/// A compile-time constant, conditional or loop.
pub open spec fn comptime_stmt<G: Grammar>(g: G, start: Cursor) -> Parsed<StmtKindModel>
    decreases left(start), 6int,
{
    let s = start;
    match expected(s, TokenModel::Comptime, "Expected 'comptime'"@) { Err(f) => Err(f), Ok((s, _)) =>
    match peeked(s) { Err(f) => Err(f), Ok(t) =>
    if t == Some(TokenModel::If) {
        match (if left(s) < left(start) { if_rest(g, s) } else { stalled(s) }) {
        Err(f) => Err(f), Ok((s, chain)) =>
        Ok((s, StmtKindModel::ComptimeIf { branches: chain.0, orelse: chain.1 })) }
    } else {
    if t == Some(TokenModel::For) {
        (if left(s) < left(start) { comptime_for(g, s) } else { stalled(s) })
    } else {
    comptime_constant(g, s) }}}}
}

/// `with item (',' item)*: <block>`
pub open spec fn with_stmt<G: Grammar>(g: G, start: Cursor) -> Parsed<StmtKindModel>
    decreases left(start), 5int,
{
    let s = start;
    match expected(s, TokenModel::With, "Expected 'with'"@) { Err(f) => Err(f), Ok((s, _)) =>
    match with_items(g, s, Seq::empty()) { Err(f) => Err(f), Ok((s, items)) =>
    match expected(s, TokenModel::Colon, "Expected ':' after the 'with' items"@) {
    Err(f) => Err(f), Ok((s, _)) =>
    match (if left(s) < left(start) { suite(g, s) } else { stalled(s) }) { Err(f) => Err(f), Ok((s, body)) =>
    Ok((s, StmtKindModel::With { items, body })) }}}}
}

/// An `except` clause, if any.
pub open spec fn except_part<G: Grammar>(g: G, start: Cursor) -> Parsed<Option<(Option<Seq<char>>, Seq<StmtModel>)>>
    decreases left(start), 2int,
{
    let s = start;
    match peeked(s) { Err(f) => Err(f), Ok(t) =>
    if !(t == Some(TokenModel::Except)) {
        Ok((s, None))
    } else {
    match taken(s) { Err(f) => Err(f), Ok((s, _)) =>
    match handler_name(s) { Err(f) => Err(f), Ok((s, name)) =>
    match expected(s, TokenModel::Colon, "Expected ':' after 'except'"@) { Err(f) => Err(f), Ok((s, _)) =>
    match (if left(s) < left(start) { suite(g, s) } else { stalled(s) }) { Err(f) => Err(f), Ok((s, body)) =>
    Ok((s, Some((name, body)))) }}}}}}
}

/// A `finally` clause, if any.
pub open spec fn finally_part<G: Grammar>(g: G, start: Cursor) -> Parsed<Option<Seq<StmtModel>>>
    decreases left(start), 2int,
{
    let s = start;
    match peeked(s) { Err(f) => Err(f), Ok(t) =>
    if !(t == Some(TokenModel::Finally)) {
        Ok((s, None))
    } else {
    match taken(s) { Err(f) => Err(f), Ok((s, _)) =>
    match expected(s, TokenModel::Colon, "Expected ':' after 'finally'"@) { Err(f) => Err(f), Ok((s, _)) =>
    match (if left(s) < left(start) { suite(g, s) } else { stalled(s) }) { Err(f) => Err(f), Ok((s, body)) =>
    Ok((s, Some(body))) }}}}}
}

/// `try: <block> [except [NAME]: <block>] [else: <block>] [finally: <block>]`
pub open spec fn try_stmt<G: Grammar>(g: G, start: Cursor) -> Parsed<StmtKindModel>
    decreases left(start), 5int,
{
    let s = start;
    match expected(s, TokenModel::Try, "Expected 'try'"@) { Err(f) => Err(f), Ok((s, _)) =>
    match expected(s, TokenModel::Colon, "Expected ':' after 'try'"@) { Err(f) => Err(f), Ok((s, _)) =>
    match (if left(s) < left(start) { suite(g, s) } else { stalled(s) }) { Err(f) => Err(f), Ok((s, body)) =>
    match (if left(s) < left(start) { except_part(g, s) } else { stalled(s) }) {
    Err(f) => Err(f), Ok((s, except)) =>
    match (if left(s) < left(start) { else_part(g, s, "Expected ':' after 'else'"@) } else { stalled(s) }) {
    Err(f) => Err(f), Ok((s, orelse)) =>
    match (if left(s) < left(start) { finally_part(g, s) } else { stalled(s) }) {
    Err(f) => Err(f), Ok((s, finalbody)) =>
    if except is None && finalbody is None {
        Err((s, unexpected(TokenModel::Try, "a 'try' needs at least one of 'except' or 'finally'"@)))
    } else {
    Ok((s, StmtKindModel::Try { body, except, orelse, finalbody })) }}}}}}}
}

/// A function with its decorators.
pub open spec fn def_stmt<G: Grammar>(
    g: G,
    start: Cursor,
    decorators: Seq<DecoratorModel>,
) -> Parsed<StmtKindModel>
    decreases left(start), 5int,
{
    let s = start;
    match expected(s, TokenModel::Def, "Expected 'def'"@) { Err(f) => Err(f), Ok((s, _)) =>
    match identifier(s, "Expected function name after 'def'"@) { Err(f) => Err(f), Ok((s, name)) =>
    match g.type_params(s) { Err(f) => Err(f), Ok((s, type_params)) =>
    match expected(s, TokenModel::LParen, "Expected '(' after function name"@) {
    Err(f) => Err(f), Ok((s, _)) =>
    match g.params(s) { Err(f) => Err(f), Ok((s, list)) =>
    match expected(s, TokenModel::RParen, "Expected ')' after parameters"@) { Err(f) => Err(f), Ok((s, _)) =>
    match peeked(s) { Err(f) => Err(f), Ok(t) =>
    if is_word(t, "unified"@) {
        Err((s, unified_removed()))
    } else {
    match callable_effects(g, s) { Err(f) => Err(f), Ok((s, effects)) =>
    match capture_list(s) { Err(f) => Err(f), Ok((s, captures)) =>
    match result_type(g, s) { Err(f) => Err(f), Ok((s, result)) =>
    match trailing_effects(s) { Err(f) => Err(f), Ok((s, _)) =>
    match where_clauses(g, s) { Err(f) => Err(f), Ok((s, where_clauses)) =>
    match expected(s, TokenModel::Colon, "Expected ':' before the function body"@) {
    Err(f) => Err(f), Ok((s, _)) =>
    match (if left(s) < left(start) { suite(g, s) } else { stalled(s) }) { Err(f) => Err(f), Ok((s, body)) =>
    Ok(
        (
            s,
            StmtKindModel::Def {
                name,
                decorators,
                type_params,
                params: list.params,
                positional_only: list.positional_only,
                keyword_only: list.keyword_only,
                captures,
                raises: effects.0,
                raises_type: effects.1,
                ret: result,
                where_clauses,
                body,
            },
        )
    ) }}}}}}}}}}}}}}}
}

/// A function or a struct with its decorators.
pub open spec fn decorated<G: Grammar>(g: G, start: Cursor) -> Parsed<StmtKindModel>
    decreases left(start), 6int,
{
    let s = start;
    match decorators(g, s) { Err(f) => Err(f), Ok((s, decorators)) =>
    match peeked(s) { Err(f) => Err(f), Ok(t) =>
    if t == Some(TokenModel::Def) {
        (if left(s) <= left(start) { def_stmt(g, s, decorators) } else { stalled(s) })
    } else {
    if t == Some(TokenModel::Struct) {
        g.struct_item(s, decorators)
    } else {
    Err((s, unexpected(token_or_end(t), "a decorator must precede a 'def' or 'struct'"@))) }}}}
}

/// A statement without its range, by the token that it starts with.
pub open spec fn statement_kind<G: Grammar>(g: G, start: Cursor) -> Parsed<StmtKindModel>
    decreases left(start), 7int,
{
    let s = start;
    match peeked(s) { Err(f) => Err(f), Ok(t) =>
    if t == Some(TokenModel::Var) {
        var_decl(g, s)
    } else {
    if is_word(t, "ref"@) {
        ref_decl(g, s)
    } else {
    if t == Some(TokenModel::Def) {
        def_stmt(g, s, Seq::empty())
    } else {
    if t == Some(TokenModel::Struct) {
        g.struct_item(s, Seq::empty())
    } else {
    if t == Some(TokenModel::At) {
        decorated(g, s)
    } else {
    if t == Some(TokenModel::Trait) {
        g.trait_item(s)
    } else {
    if t == Some(TokenModel::Comptime) {
        comptime_stmt(g, s)
    } else {
    if t == Some(TokenModel::If) {
        (if_stmt(g, s))
    } else {
    if t == Some(TokenModel::While) {
        while_stmt(g, s)
    } else {
    if t == Some(TokenModel::For) {
        for_stmt(g, s)
    } else {
    if t == Some(TokenModel::With) {
        with_stmt(g, s)
    } else {
    if t == Some(TokenModel::Try) {
        try_stmt(g, s)
    } else {
    if t == Some(TokenModel::Return) {
        return_stmt(g, s)
    } else {
    if t == Some(TokenModel::Raise) {
        raise_stmt(g, s)
    } else {
    if t == Some(TokenModel::Import) {
        import_stmt(s)
    } else {
    if t == Some(TokenModel::From) {
        from_import(s)
    } else {
    if t == Some(TokenModel::Break) {
        word_stmt(s, StmtKindModel::Break)
    } else {
    if t == Some(TokenModel::Continue) {
        word_stmt(s, StmtKindModel::Continue)
    } else {
    if t == Some(TokenModel::Pass) || t == Some(TokenModel::Ellipsis) || is_docstring(t) {
        word_stmt(s, StmtKindModel::Pass)
    } else {
    expr_or_assign(g, s) }}}}}}}}}}}}}}}}}}}}
}

/// Statements on one line, each but the last ended by a `;`.
pub open spec fn line<G: Grammar>(g: G, start: Cursor, body: Seq<StmtModel>) -> Parsed<Seq<StmtModel>>
    decreases left(start), 10int,
{
    let s = start;
    match statement(g, s) { Err(f) => Err(f), Ok((s, stmt)) =>
    { let body = body.push(stmt);
    if !s.semicolon {
        Ok((s, body))
    } else {
    match peeked(s) { Err(f) => Err(f), Ok(t) =>
    if t == Some(TokenModel::Newline) {
        match taken(s) { Err(f) => Err(f), Ok((s, _)) =>
        { let s = Cursor { semicolon: false, ..s };
        Ok((s, body)) }}
    } else {
    if t == Some(TokenModel::Eof) || t is None {
        { let s = Cursor { semicolon: false, ..s };
        Ok((s, body)) }
    } else {
    if left(s) < left(start) { line(g, s, body) } else { stalled(s) } }}}}}}
}

/// The statements of a block, up to and with the dedent.
pub open spec fn block_body<G: Grammar>(g: G, start: Cursor, body: Seq<StmtModel>) -> Parsed<Seq<StmtModel>>
    decreases left(start), 9int,
{
    let s = start;
    match peeked(s) { Err(f) => Err(f), Ok(t) =>
    if t is None {
        Ok((s, body))
    } else {
    if t == Some(TokenModel::Dedent) {
        match taken(s) { Err(f) => Err(f), Ok((s, _)) =>
        Ok((s, body)) }
    } else {
    if t == Some(TokenModel::Newline) {
        match taken(s) { Err(f) => Err(f), Ok((s, _)) =>
        if left(s) < left(start) { block_body(g, s, body) } else { stalled(s) } }
    } else {
    match statement(g, s) { Err(f) => Err(f), Ok((s, stmt)) =>
    { let body = body.push(stmt);
    if left(s) < left(start) { block_body(g, s, body) } else { stalled(s) } }}}}}}
}

/// An indented block.
pub open spec fn block<G: Grammar>(g: G, start: Cursor) -> Parsed<Seq<StmtModel>>
    decreases left(start), 10int,
{
    let s = start;
    match expected(s, TokenModel::Indent, "Expected an indented block"@) { Err(f) => Err(f), Ok((s, _)) =>
    (if left(s) < left(start) { block_body(g, s, Seq::empty()) } else { stalled(s) }) }
}

/// A suite behind a `:`: an indented block, or statements on the same line.
pub open spec fn suite<G: Grammar>(g: G, start: Cursor) -> Parsed<Seq<StmtModel>>
    decreases left(start), 11int,
{
    let s = start;
    match peeked(s) { Err(f) => Err(f), Ok(t) =>
    if t == Some(TokenModel::Newline) {
        match taken(s) { Err(f) => Err(f), Ok((s, _)) =>
        (if left(s) < left(start) { block(g, s) } else { stalled(s) }) }
    } else {
    line(g, s, Seq::empty()) }}
}

impl Parser {
    /// A condition, a `:` and a suite.
    pub fn parse_condition_block<G: Grammar>(
        &mut self,
        g: &G,
        message: &str,
    ) -> (r: Result<(Expr, Vec<Stmt>), ParseError>)
        ensures
            told_clause(r, final(self)@) == condition_block(*g, old(self)@, message@),
            left(final(self)@) <= left(old(self)@),
            r is Ok ==> left(final(self)@) < left(old(self)@),
        decreases left(old(self)@), 2int,
    {
        let cond = g.parse_expression(self, Precedence::Lowest)?;
        self.expect(Token::Colon, message)?;
        let body = self.parse_suite(g)?;
        Ok((cond, body))
    }

    /// The `elif` clauses of a chain.
    #[verifier::loop_isolation(false)]
    pub fn parse_elif_rest<G: Grammar>(
        &mut self,
        g: &G,
        branches: Vec<(Expr, Vec<Stmt>)>,
    ) -> (r: Result<Vec<(Expr, Vec<Stmt>)>, ParseError>)
        ensures
            told_clauses(r, final(self)@) == elif_rest(*g, old(self)@, expr_stmts_list_view(branches)),
            left(final(self)@) <= left(old(self)@),
        decreases left(old(self)@), 3int,
    {
        let ghost branches_0 = expr_stmts_list_view(branches);
        let mut branches = branches;
        loop
            invariant
                elif_rest(*g, self@, expr_stmts_list_view(branches)) == elif_rest(*g, old(self)@, branches_0),
                left(self@) <= left(old(self)@),
            decreases left(self@),
        {
            let t: Option<Token> = self.peek_token()?;
            if !(token_is(&t, &Token::Elif)) {
                return Ok(branches);
            }
            self.next_token()?;
            let clause = self.parse_condition_block(g, "Expected ':' after the elif condition")?;
            let ghost before = expr_stmts_list_view(branches);
            branches.push(clause);
            assert(expr_stmts_list_view(branches) =~= before.push(expr_stmts_list_view(branches).last()));
        }
    }

    /// An `else` and its suite, if any.
    pub fn parse_else<G: Grammar>(
        &mut self,
        g: &G,
        message: &str,
    ) -> (r: Result<Option<Vec<Stmt>>, ParseError>)
        ensures
            told_opt_stmts(r, final(self)@) == else_part(*g, old(self)@, message@),
            left(final(self)@) <= left(old(self)@),
        decreases left(old(self)@), 2int,
    {
        let t: Option<Token> = self.peek_token()?;
        if !(token_is(&t, &Token::Else)) {
            return Ok(None);
        }
        self.next_token()?;
        self.expect(Token::Colon, message)?;
        let body = self.parse_suite(g)?;
        Ok(Some(body))
    }

    /// A chain of `if`, `elif` and `else`.
    pub fn parse_if_rest<G: Grammar>(&mut self, g: &G) -> (r: Result<IfChain, ParseError>)
        ensures
            told_chain(r, final(self)@) == if_rest(*g, old(self)@),
            left(final(self)@) <= left(old(self)@),
            r is Ok ==> left(final(self)@) < left(old(self)@),
        decreases left(old(self)@), 4int,
    {
        self.expect(Token::If, "Expected 'if'")?;
        let first = self.parse_condition_block(g, "Expected ':' after the if condition")?;
        let branches = self.parse_elif_rest(g, one_clause(first))?;
        let orelse = self.parse_else(g, "Expected ':' after 'else'")?;
        Ok((branches, orelse))
    }

    /// `if cond: <block> (elif cond: <block>)* (else: <block>)?`
    pub fn parse_if<G: Grammar>(&mut self, g: &G) -> (r: Result<StmtKind, ParseError>)
        ensures
            told_kind(r, final(self)@) == if_stmt(*g, old(self)@),
            left(final(self)@) <= left(old(self)@),
            r is Ok ==> left(final(self)@) < left(old(self)@),
        decreases left(old(self)@), 5int,
    {
        let chain = self.parse_if_rest(g)?;
        Ok(StmtKind::If { branches: chain.0, orelse: chain.1 })
    }

    /// An `else` behind a loop, if any.
    pub fn parse_loop_else<G: Grammar>(&mut self, g: &G) -> (r: Result<Option<Vec<Stmt>>, ParseError>)
        ensures
            told_opt_stmts(r, final(self)@) == loop_else(*g, old(self)@),
            left(final(self)@) <= left(old(self)@),
        decreases left(old(self)@), 3int,
    {
        self.parse_else(g, "Expected ':' after loop 'else'")
    }

    /// `while cond: <block> [else: <block>]`
    pub fn parse_while<G: Grammar>(&mut self, g: &G) -> (r: Result<StmtKind, ParseError>)
        ensures
            told_kind(r, final(self)@) == while_stmt(*g, old(self)@),
            left(final(self)@) <= left(old(self)@),
            r is Ok ==> left(final(self)@) < left(old(self)@),
        decreases left(old(self)@), 5int,
    {
        self.expect(Token::While, "Expected 'while'")?;
        let clause = self.parse_condition_block(g, "Expected ':' after the while condition")?;
        let orelse = self.parse_loop_else(g)?;
        Ok(StmtKind::While { cond: clause.0, body: clause.1, orelse })
    }

    /// A loop over an iterable and its suite.
    pub fn parse_for_rest<G: Grammar>(&mut self, g: &G) -> (r: Result<(String, LoopBindingMode, Expr, Vec<Stmt>), ParseError>)
        ensures
            told_loop(r, final(self)@) == for_rest(*g, old(self)@),
            left(final(self)@) <= left(old(self)@),
            r is Ok ==> left(final(self)@) < left(old(self)@),
        decreases left(old(self)@), 2int,
    {
        let head = self.parse_loop_head(g)?;
        let body = self.parse_suite(g)?;
        Ok((head.0, head.1, head.2, body))
    }

    /// `for [ref | var] name in iter: <block> [else: <block>]`
    pub fn parse_for<G: Grammar>(&mut self, g: &G) -> (r: Result<StmtKind, ParseError>)
        ensures
            told_kind(r, final(self)@) == for_stmt(*g, old(self)@),
            left(final(self)@) <= left(old(self)@),
            r is Ok ==> left(final(self)@) < left(old(self)@),
        decreases left(old(self)@), 5int,
    {
        let head = self.parse_for_rest(g)?;
        let orelse = self.parse_loop_else(g)?;
        Ok(StmtKind::For { var: head.0, binding: head.1, iter: head.2, body: head.3, orelse })
    }

    /// A compile-time loop, which binds its variable plainly.
    pub fn parse_comptime_for<G: Grammar>(&mut self, g: &G) -> (r: Result<StmtKind, ParseError>)
        ensures
            told_kind(r, final(self)@) == comptime_for(*g, old(self)@),
            left(final(self)@) <= left(old(self)@),
            r is Ok ==> left(final(self)@) < left(old(self)@),
        decreases left(old(self)@), 5int,
    {
        let head = self.parse_for_rest(g)?;
        if head.1 != LoopBindingMode::Immutable {
            return Err(reject(Token::For, "comptime for cannot use an explicit ref/var binding"));
        }
        Ok(StmtKind::ComptimeFor { var: head.0, iter: head.2, body: head.3 })
    }

    /// A compile-time constant, conditional or loop.
    pub fn parse_comptime<G: Grammar>(&mut self, g: &G) -> (r: Result<StmtKind, ParseError>)
        ensures
            told_kind(r, final(self)@) == comptime_stmt(*g, old(self)@),
            left(final(self)@) <= left(old(self)@),
            r is Ok ==> left(final(self)@) < left(old(self)@),
        decreases left(old(self)@), 6int,
    {
        self.expect(Token::Comptime, "Expected 'comptime'")?;
        let t: Option<Token> = self.peek_token()?;
        if token_is(&t, &Token::If) {
            let chain = self.parse_if_rest(g)?;
            return Ok(StmtKind::ComptimeIf { branches: chain.0, orelse: chain.1 });
        }
        if token_is(&t, &Token::For) {
            return self.parse_comptime_for(g);
        }
        self.parse_comptime_constant(g)
    }

    /// `with item (',' item)*: <block>`
    pub fn parse_with<G: Grammar>(&mut self, g: &G) -> (r: Result<StmtKind, ParseError>)
        ensures
            told_kind(r, final(self)@) == with_stmt(*g, old(self)@),
            left(final(self)@) <= left(old(self)@),
            r is Ok ==> left(final(self)@) < left(old(self)@),
        decreases left(old(self)@), 5int,
    {
        self.expect(Token::With, "Expected 'with'")?;
        let items = self.parse_with_items(g, no_with_items())?;
        self.expect(Token::Colon, "Expected ':' after the 'with' items")?;
        let body = self.parse_suite(g)?;
        Ok(StmtKind::With { items, body })
    }

    /// An `except` clause, if any.
    pub fn parse_except<G: Grammar>(&mut self, g: &G) -> (r: Result<Option<(Option<String>, Vec<Stmt>)>, ParseError>)
        ensures
            told_handler(r, final(self)@) == except_part(*g, old(self)@),
            left(final(self)@) <= left(old(self)@),
        decreases left(old(self)@), 2int,
    {
        let t: Option<Token> = self.peek_token()?;
        if !(token_is(&t, &Token::Except)) {
            return Ok(None);
        }
        self.next_token()?;
        let name = self.parse_handler_name()?;
        self.expect(Token::Colon, "Expected ':' after 'except'")?;
        let body = self.parse_suite(g)?;
        Ok(Some((name, body)))
    }

    /// A `finally` clause, if any.
    pub fn parse_finally<G: Grammar>(&mut self, g: &G) -> (r: Result<Option<Vec<Stmt>>, ParseError>)
        ensures
            told_opt_stmts(r, final(self)@) == finally_part(*g, old(self)@),
            left(final(self)@) <= left(old(self)@),
        decreases left(old(self)@), 2int,
    {
        let t: Option<Token> = self.peek_token()?;
        if !(token_is(&t, &Token::Finally)) {
            return Ok(None);
        }
        self.next_token()?;
        self.expect(Token::Colon, "Expected ':' after 'finally'")?;
        let body = self.parse_suite(g)?;
        Ok(Some(body))
    }

    /// `try: <block> [except [NAME]: <block>] [else: <block>] [finally: <block>]`
    pub fn parse_try<G: Grammar>(&mut self, g: &G) -> (r: Result<StmtKind, ParseError>)
        ensures
            told_kind(r, final(self)@) == try_stmt(*g, old(self)@),
            left(final(self)@) <= left(old(self)@),
            r is Ok ==> left(final(self)@) < left(old(self)@),
        decreases left(old(self)@), 5int,
    {
        self.expect(Token::Try, "Expected 'try'")?;
        self.expect(Token::Colon, "Expected ':' after 'try'")?;
        let body = self.parse_suite(g)?;
        let except = self.parse_except(g)?;
        let orelse = self.parse_else(g, "Expected ':' after 'else'")?;
        let finalbody = self.parse_finally(g)?;
        if except.is_none() && finalbody.is_none() {
            return Err(reject(Token::Try, "a 'try' needs at least one of 'except' or 'finally'"));
        }
        Ok(StmtKind::Try { body, except, orelse, finalbody })
    }

    /// A function with its decorators.
    pub fn parse_def<G: Grammar>(
        &mut self,
        g: &G,
        decorators: Vec<Decorator>,
    ) -> (r: Result<StmtKind, ParseError>)
        ensures
            told_kind(r, final(self)@) == def_stmt(*g, old(self)@, decorators_view(decorators)),
            left(final(self)@) <= left(old(self)@),
            r is Ok ==> left(final(self)@) < left(old(self)@),
        decreases left(old(self)@), 5int,
    {
        self.expect(Token::Def, "Expected 'def'")?;
        let name = self.expect_identifier("Expected function name after 'def'")?;
        let type_params = g.parse_type_params(self)?;
        self.expect(Token::LParen, "Expected '(' after function name")?;
        let list = g.parse_params(self)?;
        self.expect(Token::RParen, "Expected ')' after parameters")?;
        let t: Option<Token> = self.peek_token()?;
        if word_is(&t, "unified") {
            return Err(reject_unified());
        }
        let effects = self.parse_callable_effects(g)?;
        let captures = self.parse_capture_list()?;
        let result = self.parse_result_type(g)?;
        self.parse_trailing_effects()?;
        let where_clauses = self.parse_where_clauses(g)?;
        self.expect(Token::Colon, "Expected ':' before the function body")?;
        let body = self.parse_suite(g)?;
        Ok(
            StmtKind::Def {
                name,
                decorators,
                type_params,
                params: list.params,
                positional_only: list.positional_only,
                keyword_only: list.keyword_only,
                captures,
                raises: effects.0,
                raises_type: effects.1,
                ret: result,
                where_clauses,
                body,
            }
        )
    }

    /// A function or a struct with its decorators.
    pub fn parse_decorated<G: Grammar>(&mut self, g: &G) -> (r: Result<StmtKind, ParseError>)
        ensures
            told_kind(r, final(self)@) == decorated(*g, old(self)@),
            left(final(self)@) <= left(old(self)@),
            r is Ok ==> left(final(self)@) < left(old(self)@),
        decreases left(old(self)@), 6int,
    {
        let decorators = self.parse_decorators(g)?;
        let t: Option<Token> = self.peek_token()?;
        if token_is(&t, &Token::Def) {
            return self.parse_def(g, decorators);
        }
        if token_is(&t, &Token::Struct) {
            return g.parse_struct(self, decorators);
        }
        Err(reject(or_end(t), "a decorator must precede a 'def' or 'struct'"))
    }

    /// A statement without its range, by the token that it starts with.
    pub fn parse_statement_kind<G: Grammar>(&mut self, g: &G) -> (r: Result<StmtKind, ParseError>)
        ensures
            told_kind(r, final(self)@) == statement_kind(*g, old(self)@),
            left(final(self)@) <= left(old(self)@),
            r is Ok ==> left(final(self)@) < left(old(self)@),
        decreases left(old(self)@), 7int,
    {
        let t: Option<Token> = self.peek_token()?;
        if token_is(&t, &Token::Var) {
            return self.parse_var_decl(g);
        }
        if word_is(&t, "ref") {
            return self.parse_ref_decl(g);
        }
        if token_is(&t, &Token::Def) {
            return self.parse_def(g, no_decorators());
        }
        if token_is(&t, &Token::Struct) {
            return g.parse_struct(self, no_decorators());
        }
        if token_is(&t, &Token::At) {
            return self.parse_decorated(g);
        }
        if token_is(&t, &Token::Trait) {
            return g.parse_trait(self);
        }
        if token_is(&t, &Token::Comptime) {
            return self.parse_comptime(g);
        }
        if token_is(&t, &Token::If) {
            return self.parse_if(g);
        }
        if token_is(&t, &Token::While) {
            return self.parse_while(g);
        }
        if token_is(&t, &Token::For) {
            return self.parse_for(g);
        }
        if token_is(&t, &Token::With) {
            return self.parse_with(g);
        }
        if token_is(&t, &Token::Try) {
            return self.parse_try(g);
        }
        if token_is(&t, &Token::Return) {
            return self.parse_return(g);
        }
        if token_is(&t, &Token::Raise) {
            return self.parse_raise(g);
        }
        if token_is(&t, &Token::Import) {
            return self.parse_import();
        }
        if token_is(&t, &Token::From) {
            return self.parse_from_import();
        }
        if token_is(&t, &Token::Break) {
            return self.parse_word_stmt(StmtKind::Break);
        }
        if token_is(&t, &Token::Continue) {
            return self.parse_word_stmt(StmtKind::Continue);
        }
        if token_is(&t, &Token::Pass) || token_is(&t, &Token::Ellipsis) || docstring_is(&t) {
            return self.parse_word_stmt(StmtKind::Pass);
        }
        self.parse_expr_or_assign(g)
    }

    /// Statements on one line, each but the last ended by a `;`.
    #[verifier::loop_isolation(false)]
    pub fn parse_line<G: Grammar>(&mut self, g: &G, body: Vec<Stmt>) -> (r: Result<Vec<Stmt>, ParseError>)
        ensures
            told_stmts(r, final(self)@) == line(*g, old(self)@, stmts_view(body)),
            left(final(self)@) <= left(old(self)@),
        decreases left(old(self)@), 10int,
    {
        let ghost body_0 = stmts_view(body);
        let mut body = body;
        loop
            invariant
                line(*g, self@, stmts_view(body)) == line(*g, old(self)@, body_0),
                left(self@) <= left(old(self)@),
            decreases left(self@),
        {
            let stmt = self.parse_statement(g)?;
            let ghost before = stmts_view(body);
            body.push(stmt);
            assert(stmts_view(body) =~= before.push(stmts_view(body).last()));
            if !self.last_stmt_ended_with_semicolon {
                return Ok(body);
            }
            let t: Option<Token> = self.peek_token()?;
            if token_is(&t, &Token::Newline) {
                self.next_token()?;
                let ghost unflagged = self@;
                self.last_stmt_ended_with_semicolon = false;
                assert(self@.rest =~= unflagged.rest);
                return Ok(body);
            }
            if token_is(&t, &Token::Eof) || t.is_none() {
                let ghost unflagged = self@;
                self.last_stmt_ended_with_semicolon = false;
                assert(self@.rest =~= unflagged.rest);
                return Ok(body);
            }
        }
    }

    /// The statements of a block, up to and with the dedent.
    #[verifier::loop_isolation(false)]
    pub fn parse_block_body<G: Grammar>(
        &mut self,
        g: &G,
        body: Vec<Stmt>,
    ) -> (r: Result<Vec<Stmt>, ParseError>)
        ensures
            told_stmts(r, final(self)@) == block_body(*g, old(self)@, stmts_view(body)),
            left(final(self)@) <= left(old(self)@),
        decreases left(old(self)@), 9int,
    {
        let ghost body_0 = stmts_view(body);
        let mut body = body;
        loop
            invariant
                block_body(*g, self@, stmts_view(body)) == block_body(*g, old(self)@, body_0),
                left(self@) <= left(old(self)@),
            decreases left(self@),
        {
            let t: Option<Token> = self.peek_token()?;
            if t.is_none() {
                return Ok(body);
            }
            if token_is(&t, &Token::Dedent) {
                self.next_token()?;
                return Ok(body);
            }
            if token_is(&t, &Token::Newline) {
                self.next_token()?;
                continue;
            }
            let stmt = self.parse_statement(g)?;
            let ghost before = stmts_view(body);
            body.push(stmt);
            assert(stmts_view(body) =~= before.push(stmts_view(body).last()));
        }
    }

    /// An indented block.
    pub fn parse_block<G: Grammar>(&mut self, g: &G) -> (r: Result<Vec<Stmt>, ParseError>)
        ensures
            told_stmts(r, final(self)@) == block(*g, old(self)@),
            left(final(self)@) <= left(old(self)@),
        decreases left(old(self)@), 10int,
    {
        self.expect(Token::Indent, "Expected an indented block")?;
        self.parse_block_body(g, no_stmts())
    }

    /// A suite behind a `:`: an indented block, or statements on the same line.
    pub fn parse_suite<G: Grammar>(&mut self, g: &G) -> (r: Result<Vec<Stmt>, ParseError>)
        ensures
            told_stmts(r, final(self)@) == suite(*g, old(self)@),
            left(final(self)@) <= left(old(self)@),
        decreases left(old(self)@), 11int,
    {
        let t: Option<Token> = self.peek_token()?;
        if token_is(&t, &Token::Newline) {
            self.next_token()?;
            return self.parse_block(g);
        }
        self.parse_line(g, no_stmts())
    }
}

} // verus!
