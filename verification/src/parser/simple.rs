//! A small grammar of expressions, types and parameters.

use crate::ast::{
    Decorator, DecoratorModel, Expr, ExprKind, ExprKindModel, ExprModel, FnParam, FnParamModel,
    InfixOp, KwArg, KwArgModel, ParamKind, PrefixOp, StmtKind, StmtKindModel, Type, TypeModel,
    TypeParam, TypeParamModel, exprs_view, fn_params_view, kw_args_view, type_params_view,
};
use crate::literal::{IntLiteral, literal_of};
use crate::parser::{
    ParamList, ParamListModel, ParseError, ParseErrorModel, Precedence, binding_power, call_name,
    callee_name, convention_of, convention_word, infix_precedence, read_removed, reject,
    removed_convention_error, right_level, unexpected,
};
use crate::parser::driver::{
    Cursor, Parsed, Parser, ahead, expected, identifier, is_name, left, names_something, node_at,
    peeked, stalled, start_ahead, taken, token_is, told_unit,
};
use crate::parser::stmts::{
    CallArgs, CallArgsModel, Grammar, no_exprs, no_kw_args, no_source_args, no_type_params,
    no_words, one_word, told_args, told_expr, told_flag, told_kind, told_opt_expr, told_params,
    told_type, told_type_params, told_words,
};
use crate::text::str_eq;
use crate::token::{Token, TokenModel};
use vstd::prelude::*;

verus! {

/// The operator that a token spells between two operands.
pub open spec fn infix_ahead(t: Option<TokenModel>) -> Option<InfixOp> {
    match t {
        Some(TokenModel::Or) => Some(InfixOp::Or),
        Some(TokenModel::And) => Some(InfixOp::And),
        Some(TokenModel::EqEq) => Some(InfixOp::Eq),
        Some(TokenModel::NotEq) => Some(InfixOp::Ne),
        Some(TokenModel::Less) => Some(InfixOp::Lt),
        Some(TokenModel::Greater) => Some(InfixOp::Gt),
        Some(TokenModel::LessEq) => Some(InfixOp::Le),
        Some(TokenModel::GreaterEq) => Some(InfixOp::Ge),
        Some(TokenModel::In) => Some(InfixOp::In),
        Some(TokenModel::Plus) => Some(InfixOp::Add),
        Some(TokenModel::Minus) => Some(InfixOp::Sub),
        Some(TokenModel::Amp) => Some(InfixOp::BitAnd),
        Some(TokenModel::Pipe) => Some(InfixOp::BitOr),
        Some(TokenModel::Caret) => Some(InfixOp::BitXor),
        Some(TokenModel::Star) => Some(InfixOp::Mul),
        Some(TokenModel::Slash) => Some(InfixOp::Div),
        Some(TokenModel::DoubleSlash) => Some(InfixOp::FloorDiv),
        Some(TokenModel::Percent) => Some(InfixOp::Mod),
        Some(TokenModel::At) => Some(InfixOp::MatMul),
        Some(TokenModel::DoubleStar) => Some(InfixOp::Pow),
        _ => None,
    }
}

fn operator_of(t: &Option<Token>) -> (r: Option<InfixOp>)
    ensures
        r == infix_ahead(ahead(*t)),
{
    match t {
        Some(Token::Or) => Some(InfixOp::Or),
        Some(Token::And) => Some(InfixOp::And),
        Some(Token::EqEq) => Some(InfixOp::Eq),
        Some(Token::NotEq) => Some(InfixOp::Ne),
        Some(Token::Less) => Some(InfixOp::Lt),
        Some(Token::Greater) => Some(InfixOp::Gt),
        Some(Token::LessEq) => Some(InfixOp::Le),
        Some(Token::GreaterEq) => Some(InfixOp::Ge),
        Some(Token::In) => Some(InfixOp::In),
        Some(Token::Plus) => Some(InfixOp::Add),
        Some(Token::Minus) => Some(InfixOp::Sub),
        Some(Token::Amp) => Some(InfixOp::BitAnd),
        Some(Token::Pipe) => Some(InfixOp::BitOr),
        Some(Token::Caret) => Some(InfixOp::BitXor),
        Some(Token::Star) => Some(InfixOp::Mul),
        Some(Token::Slash) => Some(InfixOp::Div),
        Some(Token::DoubleSlash) => Some(InfixOp::FloorDiv),
        Some(Token::Percent) => Some(InfixOp::Mod),
        Some(Token::At) => Some(InfixOp::MatMul),
        Some(Token::DoubleStar) => Some(InfixOp::Pow),
        _ => None,
    }
}

/// The level at which an operator itself binds.
pub open spec fn own_level(op: InfixOp) -> Precedence {
    if op == InfixOp::Pow { Precedence::Power } else { right_level(op) }
}

fn own_precedence(op: InfixOp) -> (r: Precedence)
    ensures
        r == own_level(op),
{
    match op {
        InfixOp::Pow => Precedence::Power,
        _ => infix_precedence(op),
    }
}

/// The expression that a token is by itself.
pub open spec fn atom(token: TokenModel) -> Option<ExprKindModel> {
    match token {
        TokenModel::Identifier(name) => Some(ExprKindModel::Identifier(name)),
        TokenModel::IntLiteral(n) => Some(ExprKindModel::Int(literal_of(n as int))),
        TokenModel::BoolLiteral(b) => Some(ExprKindModel::Bool(b)),
        TokenModel::StringLiteral(s) => Some(ExprKindModel::Str(s)),
        _ => None,
    }
}

fn atom_of(token: &Token) -> (r: Option<ExprKind>)
    ensures
        match r {
            Some(kind) => atom(token@) == Some(kind@),
            None => atom(token@) is None,
        },
{
    match token {
        Token::Identifier(name) => Some(ExprKind::Identifier(name.clone())),
        Token::IntLiteral(n) => Some(ExprKind::Int(IntLiteral::from_i64(*n).canonical())),
        Token::BoolLiteral(b) => Some(ExprKind::Bool(*b)),
        Token::StringLiteral(s) => Some(ExprKind::Str(s.clone())),
        _ => None,
    }
}

/// The name that an expression is, if it is one.
pub open spec fn plain_name(e: ExprModel) -> Option<Seq<char>> {
    match e.kind {
        ExprKindModel::Identifier(name) => Some(name),
        _ => None,
    }
}

fn name_of(e: &Expr) -> (r: Option<String>)
    ensures
        match r {
            Some(name) => plain_name(e@) == Some(name@),
            None => plain_name(e@) is None,
        },
{
    match &e.kind {
        ExprKind::Identifier(name) => Some(name.clone()),
        _ => None,
    }
}

/// The rejection of a callee that is no name.
pub open spec fn uncallable(callee: ExprModel) -> ParseErrorModel {
    match callee_name(callee) {
        Err(e) => e,
        Ok(_) => unexpected(TokenModel::LParen, ""@),
    }
}

fn reject_callee(callee: Expr) -> (r: ParseError)
    ensures
        r@ == uncallable(callee@),
{
    match call_name(callee) {
        Err(e) => e,
        Ok(_) => reject(Token::LParen, ""),
    }
}

/// The type that a name is.
pub open spec fn named_type(name: Seq<char>) -> TypeModel {
    if name == "Int"@ {
        TypeModel::Int
    } else if name == "UInt"@ {
        TypeModel::UInt
    } else if name == "Bool"@ {
        TypeModel::Bool
    } else if name == "StringLiteral"@ {
        TypeModel::StringLiteral
    } else if name == "Float64"@ {
        TypeModel::Float64
    } else if name == "None"@ {
        TypeModel::NoneType
    } else if name == "Self"@ {
        TypeModel::SelfType
    } else {
        TypeModel::Named(name, Seq::empty())
    }
}

fn type_of_name(name: String) -> (r: Type)
    ensures
        r@ == named_type(name@),
{
    if str_eq(&name, "Int") {
        Type::Int
    } else if str_eq(&name, "UInt") {
        Type::UInt
    } else if str_eq(&name, "Bool") {
        Type::Bool
    } else if str_eq(&name, "StringLiteral") {
        Type::StringLiteral
    } else if str_eq(&name, "Float64") {
        Type::Float64
    } else if str_eq(&name, "None") {
        Type::NoneType
    } else if str_eq(&name, "Self") {
        Type::SelfType
    } else {
        Type::Named(name, no_source_args())
    }
}

fn no_params() -> (r: Vec<FnParam>)
    ensures
        fn_params_view(r) == Seq::<FnParamModel>::empty(),
{
    let r: Vec<FnParam> = Vec::new();
    assert(fn_params_view(r) =~= Seq::empty());
    r
}

/// The rejection of a word that stands where a convention stands.
pub open spec fn read_or_unknown(word: Seq<char>) -> ParseErrorModel {
    if word == "read"@ {
        read_removed()
    } else {
        unexpected(TokenModel::Identifier(word), "Expected ':' after a parameter name"@)
    }
}

fn reject_convention(word: String) -> (r: ParseError)
    ensures
        r@ == read_or_unknown(word@),
{
    match removed_convention_error(&word) {
        Some(e) => e,
        None => reject(Token::Identifier(word), "Expected ':' after a parameter name"),
    }
}

/// What reading a parameter comes to, and where it leaves off.
pub open spec fn told_param(r: Result<FnParam, ParseError>, s: Cursor) -> Parsed<FnParamModel> {
    match r {
        Ok(v) => Ok((s, v@)),
        Err(e) => Err((s, e@)),
    }
}

/// A grammar of names, literals, operators, calls, members and indices, with named
/// types. It has no structs and no traits.
pub struct SimpleGrammar {}

impl Grammar for SimpleGrammar {
    open spec fn expression(&self, s: Cursor, level: Precedence) -> Parsed<ExprModel> {
        simple_expression(s, level)
    }

    proof fn rejects_layout(&self, s: Cursor) {
        assert(operand(s) is Err);
    }

    open spec fn annotation(&self, s: Cursor) -> Parsed<TypeModel> {
        simple_type(s)
    }

    open spec fn type_params(&self, s: Cursor) -> Parsed<Seq<TypeParamModel>> {
        simple_type_params(s)
    }

    open spec fn params(&self, s: Cursor) -> Parsed<ParamListModel> {
        simple_params(s, Seq::empty(), None, None)
    }

    open spec fn call_args(&self, s: Cursor) -> Parsed<CallArgsModel> {
        simple_args(s, Seq::empty(), Seq::empty())
    }

    open spec fn struct_item(&self, s: Cursor, decorators: Seq<DecoratorModel>) -> Parsed<StmtKindModel> {
        no_item(s)
    }

    open spec fn trait_item(&self, s: Cursor) -> Parsed<StmtKindModel> {
        no_item(s)
    }

    open spec fn erased_effects(&self, s: Cursor) -> Parsed<()> {
        one_token(s)
    }

    fn parse_expression(&self, p: &mut Parser, level: Precedence) -> (r: Result<Expr, ParseError>) {
        p.parse_simple_expression(level)
    }

    fn parse_type(&self, p: &mut Parser) -> (r: Result<Type, ParseError>) {
        p.parse_simple_type()
    }

    fn parse_type_params(&self, p: &mut Parser) -> (r: Result<Vec<TypeParam>, ParseError>) {
        p.parse_simple_type_params()
    }

    fn parse_params(&self, p: &mut Parser) -> (r: Result<ParamList, ParseError>) {
        p.parse_simple_params(no_params(), None, None)
    }

    fn parse_call_args(&self, p: &mut Parser) -> (r: Result<CallArgs, ParseError>) {
        p.parse_simple_args(no_exprs(), no_kw_args())
    }

    fn parse_struct(&self, p: &mut Parser, decorators: Vec<Decorator>) -> (r: Result<StmtKind, ParseError>) {
        p.parse_no_item()
    }

    fn parse_trait(&self, p: &mut Parser) -> (r: Result<StmtKind, ParseError>) {
        p.parse_no_item()
    }

    fn parse_erased_callable_effects(&self, p: &mut Parser) -> (r: Result<(), ParseError>) {
        p.parse_one_token()
    }
}

/// An expression whose operators bind tighter than a level.
pub open spec fn simple_expression(start: Cursor, level: Precedence) -> Parsed<ExprModel>
    decreases left(start), 5int,
{
    let s = start;
    { let from = start_ahead(s);
    match operand(s) { Err(f) => Err(f), Ok((s, first)) =>
    (if left(s) < left(start) { infix_rest(s, first, level, from) } else { stalled(s) }) }}
}

/// The operators behind an operand, as long as they bind tighter than a level.
pub open spec fn infix_rest(
    start: Cursor,
    lhs: ExprModel,
    level: Precedence,
    from: usize,
) -> Parsed<ExprModel>
    decreases left(start), 6int,
{
    let s = start;
    match peeked(s) { Err(f) => Err(f), Ok(t) =>
    match infix_ahead(t) { Some(op) => {
        if binding_power(own_level(op)) > binding_power(level) {
            match taken(s) { Err(f) => Err(f), Ok((s, _)) =>
            match (if left(s) < left(start) { simple_expression(s, right_level(op)) } else { stalled(s) }) {
            Err(f) => Err(f), Ok((s, rhs)) =>
            { let lhs = node_at(s, ExprKindModel::Infix(op, Box::new(lhs), Box::new(rhs)), from);
            if left(s) < left(start) { infix_rest(s, lhs, level, from) } else { stalled(s) } }}}
        } else {
        Ok((s, lhs)) }
    }, _ =>
    Ok((s, lhs)) }}
}

/// A name, a literal, an expression in parentheses or a prefixed one, with what
/// follows it.
pub open spec fn operand(start: Cursor) -> Parsed<ExprModel>
    decreases left(start), 4int,
{
    let s = start;
    { let from = start_ahead(s);
    match taken(s) { Err(f) => Err(f), Ok((s, token)) =>
    match atom(token) { Some(kind) => {
        { let node = node_at(s, kind, from);
        (if left(s) < left(start) { postfix_rest(s, node, from) } else { stalled(s) }) }
    }, _ =>
    if token == TokenModel::LParen {
        match (if left(s) < left(start) { simple_expression(s, Precedence::Lowest) } else { stalled(s) }) {
        Err(f) => Err(f), Ok((s, inner)) =>
        match expected(s, TokenModel::RParen, "Expected ')' after an expression"@) {
        Err(f) => Err(f), Ok((s, _)) =>
        (if left(s) < left(start) { postfix_rest(s, inner, from) } else { stalled(s) }) }}
    } else {
    if token == TokenModel::Minus {
        match (if left(s) < left(start) { simple_expression(s, Precedence::Unary) } else { stalled(s) }) {
        Err(f) => Err(f), Ok((s, inner)) =>
        Ok((s, node_at(s, ExprKindModel::Prefix(PrefixOp::Neg, Box::new(inner)), from))) }
    } else {
    if token == TokenModel::Not {
        match (if left(s) < left(start) { simple_expression(s, Precedence::Not) } else { stalled(s) }) {
        Err(f) => Err(f), Ok((s, inner)) =>
        Ok((s, node_at(s, ExprKindModel::Prefix(PrefixOp::Not, Box::new(inner)), from))) }
    } else {
    Err((s, unexpected(token, "Expected an expression"@))) }}}}}}
}

/// Members, indices and calls behind an expression.
pub open spec fn postfix_rest(start: Cursor, base: ExprModel, from: usize) -> Parsed<ExprModel>
    decreases left(start), 3int,
{
    let s = start;
    match peeked(s) { Err(f) => Err(f), Ok(t) =>
    if t == Some(TokenModel::Dot) {
        match taken(s) { Err(f) => Err(f), Ok((s, _)) =>
        match identifier(s, "Expected a name after '.'"@) { Err(f) => Err(f), Ok((s, field)) =>
        { let base = node_at(s, ExprKindModel::Member { object: Box::new(base), field }, from);
        if left(s) < left(start) { postfix_rest(s, base, from) } else { stalled(s) } }}}
    } else {
    if t == Some(TokenModel::LBracket) {
        match taken(s) { Err(f) => Err(f), Ok((s, _)) =>
        match (if left(s) < left(start) { simple_expression(s, Precedence::Lowest) } else { stalled(s) }) {
        Err(f) => Err(f), Ok((s, index)) =>
        match expected(s, TokenModel::RBracket, "Expected ']' after an index"@) {
        Err(f) => Err(f), Ok((s, _)) =>
        { let base = node_at(s, ExprKindModel::Index { object: Box::new(base), index: Box::new(index) }, from);
        if left(s) < left(start) { postfix_rest(s, base, from) } else { stalled(s) } }}}}
    } else {
    if t == Some(TokenModel::LParen) {
        match plain_name(base) { Some(name) => {
            match taken(s) { Err(f) => Err(f), Ok((s, _)) =>
            match (if left(s) < left(start) { simple_args(s, Seq::empty(), Seq::empty()) } else { stalled(s) }) {
            Err(f) => Err(f), Ok((s, call)) =>
            match expected(s, TokenModel::RParen, "Expected ')' after arguments"@) {
            Err(f) => Err(f), Ok((s, _)) =>
            { let base = node_at(s, ExprKindModel::Call { name, param_args: Seq::empty(), args: call.0, kwargs: call.1 }, from);
            if left(s) < left(start) { postfix_rest(s, base, from) } else { stalled(s) } }}}}
        }, _ =>
        Err((s, uncallable(base))) }
    } else {
    Ok((s, base)) }}}}
}

/// The comma behind an element of a list, if any.
pub open spec fn comma(start: Cursor) -> Parsed<bool>
{
    let s = start;
    match peeked(s) { Err(f) => Err(f), Ok(t) =>
    if t == Some(TokenModel::Comma) {
        match taken(s) { Err(f) => Err(f), Ok((s, _)) =>
        Ok((s, true)) }
    } else {
    Ok((s, false)) }}
}

/// Arguments, up to the `)`.
pub open spec fn simple_args(
    start: Cursor,
    args: Seq<ExprModel>,
    kwargs: Seq<KwArgModel>,
) -> Parsed<(Seq<ExprModel>, Seq<KwArgModel>)>
    decreases left(start), 7int,
{
    let s = start;
    match peeked(s) { Err(f) => Err(f), Ok(t) =>
    if t == Some(TokenModel::RParen) {
        Ok((s, (args, kwargs)))
    } else {
    match simple_expression(s, Precedence::Lowest) { Err(f) => Err(f), Ok((s, value)) =>
    match peeked(s) { Err(f) => Err(f), Ok(t) =>
    if t == Some(TokenModel::Assign) {
        match plain_name(value) { Some(name) => {
            match taken(s) { Err(f) => Err(f), Ok((s, _)) =>
            match (if left(s) < left(start) { simple_expression(s, Precedence::Lowest) } else { stalled(s) }) {
            Err(f) => Err(f), Ok((s, given)) =>
            { let kwargs = kwargs.push(KwArgModel { name, value: given });
            match comma(s) { Err(f) => Err(f), Ok((s, more)) =>
            if !more {
                Ok((s, (args, kwargs)))
            } else {
            if left(s) < left(start) { simple_args(s, args, kwargs) } else { stalled(s) } }}}}}
        }, _ =>
        Err((s, unexpected(TokenModel::Assign, "a keyword argument requires a name"@))) }
    } else {
    { let args = args.push(value);
    match comma(s) { Err(f) => Err(f), Ok((s, more)) =>
    if !more {
        Ok((s, (args, kwargs)))
    } else {
    if left(s) < left(start) { simple_args(s, args, kwargs) } else { stalled(s) } }}}}}}}}
}

/// A type: a name.
pub open spec fn simple_type(start: Cursor) -> Parsed<TypeModel>
{
    let s = start;
    match identifier(s, "Expected a type"@) { Err(f) => Err(f), Ok((s, name)) =>
    Ok((s, named_type(name))) }
}

/// The bound of a compile-time parameter, if any.
pub open spec fn bound(start: Cursor) -> Parsed<Seq<Seq<char>>>
{
    let s = start;
    match peeked(s) { Err(f) => Err(f), Ok(t) =>
    if t == Some(TokenModel::Colon) {
        match taken(s) { Err(f) => Err(f), Ok((s, _)) =>
        match identifier(s, "Expected a bound after ':'"@) { Err(f) => Err(f), Ok((s, name)) =>
        Ok((s, seq![name])) }}
    } else {
    Ok((s, Seq::empty())) }}
}

/// Compile-time parameters behind the `[`.
pub open spec fn type_params_rest(start: Cursor, list: Seq<TypeParamModel>) -> Parsed<Seq<TypeParamModel>>
    decreases left(start),
{
    let s = start;
    match identifier(s, "Expected a compile-time parameter"@) { Err(f) => Err(f), Ok((s, name)) =>
    match bound(s) { Err(f) => Err(f), Ok((s, bounds)) =>
    { let list = list.push(TypeParamModel { name, bounds });
    match comma(s) { Err(f) => Err(f), Ok((s, more)) =>
    if !more {
        match expected(s, TokenModel::RBracket, "Expected ']' after compile-time parameters"@) {
        Err(f) => Err(f), Ok((s, _)) =>
        Ok((s, list)) }
    } else {
    if left(s) < left(start) { type_params_rest(s, list) } else { stalled(s) } }}}}}
}

/// Compile-time parameters, none where no `[` is ahead.
pub open spec fn simple_type_params(start: Cursor) -> Parsed<Seq<TypeParamModel>>
{
    let s = start;
    match peeked(s) { Err(f) => Err(f), Ok(t) =>
    if t == Some(TokenModel::LBracket) {
        match taken(s) { Err(f) => Err(f), Ok((s, _)) =>
        type_params_rest(s, Seq::empty()) }
    } else {
    Ok((s, Seq::empty())) }}
}

/// The default of a parameter, if any.
pub open spec fn default_part(start: Cursor) -> Parsed<Option<ExprModel>>
{
    let s = start;
    match peeked(s) { Err(f) => Err(f), Ok(t) =>
    if t == Some(TokenModel::Assign) {
        match taken(s) { Err(f) => Err(f), Ok((s, _)) =>
        match simple_expression(s, Precedence::Lowest) { Err(f) => Err(f), Ok((s, value)) =>
        Ok((s, Some(value))) }}
    } else {
    Ok((s, None)) }}
}

/// A parameter: a name and its type, and a convention ahead of them, if any.
pub open spec fn param(start: Cursor) -> Parsed<FnParamModel>
{
    let s = start;
    match identifier(s, "Expected a parameter name"@) { Err(f) => Err(f), Ok((s, word)) =>
    match peeked(s) { Err(f) => Err(f), Ok(t) =>
    if names_something(t) {
        match convention_of(word) { Some(convention) => {
            match identifier(s, "Expected a parameter name"@) { Err(f) => Err(f), Ok((s, name)) =>
            match expected(s, TokenModel::Colon, "Expected ':' after a parameter name"@) {
            Err(f) => Err(f), Ok((s, _)) =>
            match simple_type(s) { Err(f) => Err(f), Ok((s, ty)) =>
            match default_part(s) { Err(f) => Err(f), Ok((s, default)) =>
            Ok(
                (
                    s,
                    FnParamModel {
                        name,
                        ty,
                        kind: ParamKind::Regular,
                        convention: Some(convention),
                        default,
                    },
                )
            ) }}}}
        }, _ =>
        Err((s, read_or_unknown(word))) }
    } else {
    match expected(s, TokenModel::Colon, "Expected ':' after a parameter name"@) {
    Err(f) => Err(f), Ok((s, _)) =>
    match simple_type(s) { Err(f) => Err(f), Ok((s, ty)) =>
    match default_part(s) { Err(f) => Err(f), Ok((s, default)) =>
    Ok((s, FnParamModel { name: word, ty, kind: ParamKind::Regular, convention: None, default })) }}}}}}
}

/// Parameters, up to the `)`, with the places of the `/` and `*` markers.
pub open spec fn simple_params(
    start: Cursor,
    params: Seq<FnParamModel>,
    positional_only: Option<usize>,
    keyword_only: Option<usize>,
) -> Parsed<ParamListModel>
    decreases left(start),
{
    let s = start;
    match peeked(s) { Err(f) => Err(f), Ok(t) =>
    if t == Some(TokenModel::RParen) {
        Ok((s, ParamListModel { params, positional_only, keyword_only }))
    } else {
    if t == Some(TokenModel::Slash) {
        match taken(s) { Err(f) => Err(f), Ok((s, _)) =>
        { let positional_only = Some(params.len() as usize);
        match comma(s) { Err(f) => Err(f), Ok((s, more)) =>
        if !more {
            Ok((s, ParamListModel { params, positional_only, keyword_only }))
        } else {
        if left(s) < left(start) { simple_params(s, params, positional_only, keyword_only) } else { stalled(s) } }}}}
    } else {
    if t == Some(TokenModel::Star) {
        match taken(s) { Err(f) => Err(f), Ok((s, _)) =>
        { let keyword_only = Some(params.len() as usize);
        match comma(s) { Err(f) => Err(f), Ok((s, more)) =>
        if !more {
            Ok((s, ParamListModel { params, positional_only, keyword_only }))
        } else {
        if left(s) < left(start) { simple_params(s, params, positional_only, keyword_only) } else { stalled(s) } }}}}
    } else {
    match param(s) { Err(f) => Err(f), Ok((s, one)) =>
    { let params = params.push(one);
    match comma(s) { Err(f) => Err(f), Ok((s, more)) =>
    if !more {
        Ok((s, ParamListModel { params, positional_only, keyword_only }))
    } else {
    if left(s) < left(start) { simple_params(s, params, positional_only, keyword_only) } else { stalled(s) } }}}}}}}}
}

/// An item that this grammar does not have.
pub open spec fn no_item(start: Cursor) -> Parsed<StmtKindModel>
{
    let s = start;
    match taken(s) { Err(f) => Err(f), Ok((s, token)) =>
    Err((s, unexpected(token, "structs and traits are not part of this grammar"@))) }
}

/// One token, whatever it is.
pub open spec fn one_token(start: Cursor) -> Parsed<()>
{
    let s = start;
    match taken(s) { Err(f) => Err(f), Ok((s, _)) =>
    Ok((s, ())) }
}

impl Parser {
    /// An expression whose operators bind tighter than a level.
    pub fn parse_simple_expression(&mut self, level: Precedence) -> (r: Result<Expr, ParseError>)
        ensures
            told_expr(r, final(self)@) == simple_expression(old(self)@, level),
            left(final(self)@) <= left(old(self)@),
            r is Ok ==> left(final(self)@) < left(old(self)@),
        decreases left(old(self)@), 5int,
    {
        let from: usize = self.peek_start();
        let first = self.parse_operand()?;
        self.parse_infix_rest(first, level, from)
    }

    /// The operators behind an operand, as long as they bind tighter than a level.
    #[verifier::loop_isolation(false)]
    pub fn parse_infix_rest(
        &mut self,
        lhs: Expr,
        level: Precedence,
        from: usize,
    ) -> (r: Result<Expr, ParseError>)
        ensures
            told_expr(r, final(self)@) == infix_rest(old(self)@, lhs@, level, from),
            left(final(self)@) <= left(old(self)@),
        decreases left(old(self)@), 6int,
    {
        let ghost lhs_0 = lhs@;
        let ghost level_0 = level;
        let ghost from_0 = from;
        let mut lhs = lhs;
        loop
            invariant
                infix_rest(self@, lhs@, level, from) == infix_rest(old(self)@, lhs_0, level_0, from_0),
                left(self@) <= left(old(self)@),
            decreases left(self@),
        {
            let t: Option<Token> = self.peek_token()?;
            if let Some(op) = operator_of(&t) {
                if own_precedence(op).power() > level.power() {
                    self.next_token()?;
                    let rhs = self.parse_simple_expression(infix_precedence(op))?;
                    lhs = self.node(ExprKind::Infix(op, Box::new(lhs), Box::new(rhs)), from);
                    continue;
                }
                return Ok(lhs);
            }
            return Ok(lhs);
        }
    }

    /// A name, a literal, an expression in parentheses or a prefixed one, with what
    /// follows it.
    pub fn parse_operand(&mut self) -> (r: Result<Expr, ParseError>)
        ensures
            told_expr(r, final(self)@) == operand(old(self)@),
            left(final(self)@) <= left(old(self)@),
            r is Ok ==> left(final(self)@) < left(old(self)@),
        decreases left(old(self)@), 4int,
    {
        let from: usize = self.peek_start();
        let token = self.next_token()?;
        if let Some(kind) = atom_of(&token) {
            let node = self.node(kind, from);
            return self.parse_postfix_rest(node, from);
        }
        if token.same(&Token::LParen) {
            let inner = self.parse_simple_expression(Precedence::Lowest)?;
            self.expect(Token::RParen, "Expected ')' after an expression")?;
            return self.parse_postfix_rest(inner, from);
        }
        if token.same(&Token::Minus) {
            let inner = self.parse_simple_expression(Precedence::Unary)?;
            return Ok(self.node(ExprKind::Prefix(PrefixOp::Neg, Box::new(inner)), from));
        }
        if token.same(&Token::Not) {
            let inner = self.parse_simple_expression(Precedence::Not)?;
            return Ok(self.node(ExprKind::Prefix(PrefixOp::Not, Box::new(inner)), from));
        }
        Err(reject(token, "Expected an expression"))
    }

    /// Members, indices and calls behind an expression.
    #[verifier::loop_isolation(false)]
    pub fn parse_postfix_rest(&mut self, base: Expr, from: usize) -> (r: Result<Expr, ParseError>)
        ensures
            told_expr(r, final(self)@) == postfix_rest(old(self)@, base@, from),
            left(final(self)@) <= left(old(self)@),
        decreases left(old(self)@), 3int,
    {
        let ghost base_0 = base@;
        let ghost from_0 = from;
        let mut base = base;
        loop
            invariant
                postfix_rest(self@, base@, from) == postfix_rest(old(self)@, base_0, from_0),
                left(self@) <= left(old(self)@),
            decreases left(self@),
        {
            let t: Option<Token> = self.peek_token()?;
            if token_is(&t, &Token::Dot) {
                self.next_token()?;
                let field = self.expect_identifier("Expected a name after '.'")?;
                base = self.node(ExprKind::Member { object: Box::new(base), field }, from);
                continue;
            }
            if token_is(&t, &Token::LBracket) {
                self.next_token()?;
                let index = self.parse_simple_expression(Precedence::Lowest)?;
                self.expect(Token::RBracket, "Expected ']' after an index")?;
                base = self.node(ExprKind::Index { object: Box::new(base), index: Box::new(index) }, from);
                continue;
            }
            if token_is(&t, &Token::LParen) {
                if let Some(name) = name_of(&base) {
                    self.next_token()?;
                    let call = self.parse_simple_args(no_exprs(), no_kw_args())?;
                    self.expect(Token::RParen, "Expected ')' after arguments")?;
                    base = self.node(
                        ExprKind::Call { name, param_args: no_source_args(), args: call.0, kwargs: call.1 },
                        from,
                    );
                    continue;
                }
                return Err(reject_callee(base));
            }
            return Ok(base);
        }
    }

    /// The comma behind an element of a list, if any.
    pub fn parse_comma(&mut self) -> (r: Result<bool, ParseError>)
        ensures
            told_flag(r, final(self)@) == comma(old(self)@),
            left(final(self)@) <= left(old(self)@),
    {
        let t: Option<Token> = self.peek_token()?;
        if token_is(&t, &Token::Comma) {
            self.next_token()?;
            return Ok(true);
        }
        Ok(false)
    }

    /// Arguments, up to the `)`.
    #[verifier::loop_isolation(false)]
    pub fn parse_simple_args(
        &mut self,
        args: Vec<Expr>,
        kwargs: Vec<KwArg>,
    ) -> (r: Result<CallArgs, ParseError>)
        ensures
            told_args(r, final(self)@) == simple_args(old(self)@, exprs_view(args), kw_args_view(kwargs)),
            left(final(self)@) <= left(old(self)@),
        decreases left(old(self)@), 7int,
    {
        let ghost args_0 = exprs_view(args);
        let ghost kwargs_0 = kw_args_view(kwargs);
        let mut args = args;
        let mut kwargs = kwargs;
        loop
            invariant
                simple_args(
                    self@,
                    exprs_view(args),
                    kw_args_view(kwargs),
                ) == simple_args(old(self)@, args_0, kwargs_0),
                left(self@) <= left(old(self)@),
            decreases left(self@),
        {
            let t: Option<Token> = self.peek_token()?;
            if token_is(&t, &Token::RParen) {
                return Ok((args, kwargs));
            }
            let value = self.parse_simple_expression(Precedence::Lowest)?;
            let t: Option<Token> = self.peek_token()?;
            if token_is(&t, &Token::Assign) {
                if let Some(name) = name_of(&value) {
                    self.next_token()?;
                    let given = self.parse_simple_expression(Precedence::Lowest)?;
                    let ghost before = kw_args_view(kwargs);
                    kwargs.push(KwArg { name, value: given });
                    assert(kw_args_view(kwargs) =~= before.push(kw_args_view(kwargs).last()));
                    let more = self.parse_comma()?;
                    if !more {
                        return Ok((args, kwargs));
                    }
                    continue;
                }
                return Err(reject(Token::Assign, "a keyword argument requires a name"));
            }
            let ghost before = exprs_view(args);
            args.push(value);
            assert(exprs_view(args) =~= before.push(exprs_view(args).last()));
            let more = self.parse_comma()?;
            if !more {
                return Ok((args, kwargs));
            }
        }
    }

    /// A type: a name.
    pub fn parse_simple_type(&mut self) -> (r: Result<Type, ParseError>)
        ensures
            told_type(r, final(self)@) == simple_type(old(self)@),
            left(final(self)@) <= left(old(self)@),
            r is Ok ==> left(final(self)@) < left(old(self)@),
    {
        let name = self.expect_identifier("Expected a type")?;
        Ok(type_of_name(name))
    }

    /// The bound of a compile-time parameter, if any.
    pub fn parse_bound(&mut self) -> (r: Result<Vec<String>, ParseError>)
        ensures
            told_words(r, final(self)@) == bound(old(self)@),
            left(final(self)@) <= left(old(self)@),
    {
        let t: Option<Token> = self.peek_token()?;
        if token_is(&t, &Token::Colon) {
            self.next_token()?;
            let name = self.expect_identifier("Expected a bound after ':'")?;
            return Ok(one_word(name));
        }
        Ok(no_words())
    }

    /// Compile-time parameters behind the `[`.
    #[verifier::loop_isolation(false)]
    pub fn parse_type_params_rest(&mut self, list: Vec<TypeParam>) -> (r: Result<Vec<TypeParam>, ParseError>)
        ensures
            told_type_params(r, final(self)@) == type_params_rest(old(self)@, type_params_view(list)),
            left(final(self)@) <= left(old(self)@),
    {
        let ghost list_0 = type_params_view(list);
        let mut list = list;
        loop
            invariant
                type_params_rest(self@, type_params_view(list)) == type_params_rest(old(self)@, list_0),
                left(self@) <= left(old(self)@),
            decreases left(self@),
        {
            let name = self.expect_identifier("Expected a compile-time parameter")?;
            let bounds = self.parse_bound()?;
            let ghost before = type_params_view(list);
            list.push(TypeParam { name, bounds });
            assert(type_params_view(list) =~= before.push(type_params_view(list).last()));
            let more = self.parse_comma()?;
            if !more {
                self.expect(Token::RBracket, "Expected ']' after compile-time parameters")?;
                return Ok(list);
            }
        }
    }

    /// Compile-time parameters, none where no `[` is ahead.
    pub fn parse_simple_type_params(&mut self) -> (r: Result<Vec<TypeParam>, ParseError>)
        ensures
            told_type_params(r, final(self)@) == simple_type_params(old(self)@),
            left(final(self)@) <= left(old(self)@),
    {
        let t: Option<Token> = self.peek_token()?;
        if token_is(&t, &Token::LBracket) {
            self.next_token()?;
            return self.parse_type_params_rest(no_type_params());
        }
        Ok(no_type_params())
    }

    /// The default of a parameter, if any.
    pub fn parse_default(&mut self) -> (r: Result<Option<Expr>, ParseError>)
        ensures
            told_opt_expr(r, final(self)@) == default_part(old(self)@),
            left(final(self)@) <= left(old(self)@),
    {
        let t: Option<Token> = self.peek_token()?;
        if token_is(&t, &Token::Assign) {
            self.next_token()?;
            let value = self.parse_simple_expression(Precedence::Lowest)?;
            return Ok(Some(value));
        }
        Ok(None)
    }

    /// A parameter: a name and its type, and a convention ahead of them, if any.
    pub fn parse_param(&mut self) -> (r: Result<FnParam, ParseError>)
        ensures
            told_param(r, final(self)@) == param(old(self)@),
            left(final(self)@) <= left(old(self)@),
            r is Ok ==> left(final(self)@) < left(old(self)@),
    {
        let word = self.expect_identifier("Expected a parameter name")?;
        let t: Option<Token> = self.peek_token()?;
        if is_name(&t) {
            if let Some(convention) = convention_word(&word) {
                let name = self.expect_identifier("Expected a parameter name")?;
                self.expect(Token::Colon, "Expected ':' after a parameter name")?;
                let ty = self.parse_simple_type()?;
                let default = self.parse_default()?;
                return Ok(
                    FnParam { name, ty, kind: ParamKind::Regular, convention: Some(convention), default }
                );
            }
            return Err(reject_convention(word));
        }
        self.expect(Token::Colon, "Expected ':' after a parameter name")?;
        let ty = self.parse_simple_type()?;
        let default = self.parse_default()?;
        Ok(FnParam { name: word, ty, kind: ParamKind::Regular, convention: None, default })
    }

    /// Parameters, up to the `)`, with the places of the `/` and `*` markers.
    #[verifier::loop_isolation(false)]
    pub fn parse_simple_params(
        &mut self,
        params: Vec<FnParam>,
        positional_only: Option<usize>,
        keyword_only: Option<usize>,
    ) -> (r: Result<ParamList, ParseError>)
        ensures
            told_params(r, final(self)@) == simple_params(
                old(self)@,
                fn_params_view(params),
                positional_only,
                keyword_only,
            ),
            left(final(self)@) <= left(old(self)@),
    {
        let ghost params_0 = fn_params_view(params);
        let ghost positional_only_0 = positional_only;
        let ghost keyword_only_0 = keyword_only;
        let mut params = params;
        let mut positional_only = positional_only;
        let mut keyword_only = keyword_only;
        loop
            invariant
                simple_params(
                    self@,
                    fn_params_view(params),
                    positional_only,
                    keyword_only,
                ) == simple_params(old(self)@, params_0, positional_only_0, keyword_only_0),
                left(self@) <= left(old(self)@),
            decreases left(self@),
        {
            let t: Option<Token> = self.peek_token()?;
            if token_is(&t, &Token::RParen) {
                return Ok(ParamList { params, positional_only, keyword_only });
            }
            if token_is(&t, &Token::Slash) {
                self.next_token()?;
                positional_only = Some(params.len());
                let more = self.parse_comma()?;
                if !more {
                    return Ok(ParamList { params, positional_only, keyword_only });
                }
                continue;
            }
            if token_is(&t, &Token::Star) {
                self.next_token()?;
                keyword_only = Some(params.len());
                let more = self.parse_comma()?;
                if !more {
                    return Ok(ParamList { params, positional_only, keyword_only });
                }
                continue;
            }
            let one = self.parse_param()?;
            let ghost before = fn_params_view(params);
            params.push(one);
            assert(fn_params_view(params) =~= before.push(fn_params_view(params).last()));
            let more = self.parse_comma()?;
            if !more {
                return Ok(ParamList { params, positional_only, keyword_only });
            }
        }
    }

    /// An item that this grammar does not have.
    pub fn parse_no_item(&mut self) -> (r: Result<StmtKind, ParseError>)
        ensures
            told_kind(r, final(self)@) == no_item(old(self)@),
            left(final(self)@) <= left(old(self)@),
            r is Ok ==> left(final(self)@) < left(old(self)@),
    {
        let token = self.next_token()?;
        Err(reject(token, "structs and traits are not part of this grammar"))
    }

    /// One token, whatever it is.
    pub fn parse_one_token(&mut self) -> (r: Result<(), ParseError>)
        ensures
            told_unit(r, final(self)@) == one_token(old(self)@),
            left(final(self)@) <= left(old(self)@),
            r is Ok ==> left(final(self)@) < left(old(self)@),
    {
        self.next_token()?;
        Ok(())
    }
}

} // verus!
