//! A hand-written parser for an indentation-sensitive language.
//!
//! Statements, declarations and suites are read by recursive descent. What the
//! statements are made of (expressions, types, parameter lists, structs and traits) is a
//! grammar of its own, which the parser takes as an argument.

pub mod driver;
pub mod laws;
pub mod program;
pub mod simple;
pub mod statement_laws;
pub mod stmts;
pub mod suites;

use crate::ast::{
    ArgConvention, Expr, ExprKind, ExprKindModel, ExprModel, FnParam, FnParamModel, InfixOp,
    ParamArg, ParamArgModel, Stmt, StmtModel, TStringPart, TStringPartModel, Type, TypeModel,
    copy_fn_params, copy_stmts, exprs_view, fn_params_view, kw_args_view, source_args_view,
    stmts_view, tstring_parts_view,
};
use crate::debug::{debug_expr_kind, expr_kind_debug};
use crate::mir::verify::subscripts::at;
use crate::runtime::Value;
use crate::text::{cat2, chars_of, str_eq};
use crate::token::{LexError, LexErrorModel, Token, TokenModel, lex_error_view, token_view};
use vstd::prelude::*;

verus! {

/// Why a program could not be read.
#[derive(Debug, PartialEq, Eq)]
pub enum ParseError {
    UnexpectedToken(Token, String),
    UnexpectedEof(String),
    LexerError(LexError),
    /// An error with the byte range of the token that it was found at.
    At { error: Box<ParseError>, span: (usize, usize) },
}

/// Mathematical model of [`ParseError`].
#[verifier::ext_equal]
pub enum ParseErrorModel {
    UnexpectedToken(TokenModel, Seq<char>),
    UnexpectedEof(Seq<char>),
    LexerError(LexErrorModel),
    At { error: Box<ParseErrorModel>, span: (usize, usize) },
}

/// Levels of binding, the loosest first.
#[derive(Debug, Clone, Copy, PartialEq, Eq, Hash, Structural)]
pub enum Precedence {
    Lowest,
    Walrus,
    Conditional,
    Or,
    And,
    Not,
    Comparison,
    Sum,
    Product,
    Unary,
    Power,
    Call,
}

/// The parameters of a declaration and the places of its `/` and `*` markers.
#[derive(Debug, PartialEq, Eq)]
pub struct ParamList {
    pub params: Vec<FnParam>,
    pub positional_only: Option<usize>,
    pub keyword_only: Option<usize>,
}

/// Mathematical model of [`ParamList`].
#[verifier::ext_equal]
pub struct ParamListModel {
    pub params: Seq<FnParamModel>,
    pub positional_only: Option<usize>,
    pub keyword_only: Option<usize>,
}

/// What reading a program with recovery gives: the statements that could be read and the errors.
#[derive(Debug, PartialEq, Eq)]
pub struct ParseReport {
    pub program: Vec<Stmt>,
    pub errors: Vec<ParseError>,
    pub truncated: bool,
}

/// Mathematical model of [`ParseReport`].
#[verifier::ext_equal]
pub struct ParseReportModel {
    pub program: Seq<StmtModel>,
    pub errors: Seq<ParseErrorModel>,
    pub truncated: bool,
}

/// The model of a [`ParseError`].
pub open spec fn parse_error_view(x: ParseError) -> ParseErrorModel
    decreases x,
{
    match x {
        ParseError::UnexpectedToken(a0, a1) => ParseErrorModel::UnexpectedToken(token_view(a0), a1@),
        ParseError::UnexpectedEof(a0) => ParseErrorModel::UnexpectedEof(a0@),
        ParseError::LexerError(a0) => ParseErrorModel::LexerError(lex_error_view(a0)),
        ParseError::At { error, span } => ParseErrorModel::At {
            error: Box::new(parse_error_view(*error)),
            span,
        },
    }
}

impl View for ParseError {
    type V = ParseErrorModel;

    open spec fn view(&self) -> ParseErrorModel {
        parse_error_view(*self)
    }
}

impl ParseError {
    /// A structural copy.
    pub fn copy(&self) -> (r: ParseError)
        ensures
            r@ == self@,
        decreases self,
    {
        match self {
            ParseError::UnexpectedToken(a0, a1) => ParseError::UnexpectedToken(a0.copy(), a1.clone()),
            ParseError::UnexpectedEof(a0) => ParseError::UnexpectedEof(a0.clone()),
            ParseError::LexerError(a0) => ParseError::LexerError(a0.copy()),
            ParseError::At { error, span } => ParseError::At { error: Box::new(error.copy()), span: *span },
        }
    }
}

impl Clone for ParseError {
    fn clone(&self) -> (r: ParseError)
        ensures
            r@ == self@,
    {
        self.copy()
    }
}

/// The model of a [`ParamList`].
pub open spec fn param_list_view(x: ParamList) -> ParamListModel
    decreases x,
{
    ParamListModel {
        params: fn_params_view(x.params),
        positional_only: x.positional_only,
        keyword_only: x.keyword_only,
    }
}

impl View for ParamList {
    type V = ParamListModel;

    open spec fn view(&self) -> ParamListModel {
        param_list_view(*self)
    }
}

impl ParamList {
    /// A structural copy.
    pub fn copy(&self) -> (r: ParamList)
        ensures
            r@ == self@,
        decreases self,
    {
        ParamList {
            params: copy_fn_params(&self.params),
            positional_only: self.positional_only,
            keyword_only: self.keyword_only,
        }
    }
}

impl Clone for ParamList {
    fn clone(&self) -> (r: ParamList)
        ensures
            r@ == self@,
    {
        self.copy()
    }
}

/// The model of a [`ParseReport`].
pub open spec fn parse_report_view(x: ParseReport) -> ParseReportModel
    decreases x,
{
    ParseReportModel {
        program: stmts_view(x.program),
        errors: parse_errors_view(x.errors),
        truncated: x.truncated,
    }
}

impl View for ParseReport {
    type V = ParseReportModel;

    open spec fn view(&self) -> ParseReportModel {
        parse_report_view(*self)
    }
}

impl ParseReport {
    /// A structural copy.
    pub fn copy(&self) -> (r: ParseReport)
        ensures
            r@ == self@,
        decreases self,
    {
        ParseReport {
            program: copy_stmts(&self.program),
            errors: copy_parse_errors(&self.errors),
            truncated: self.truncated,
        }
    }
}

impl Clone for ParseReport {
    fn clone(&self) -> (r: ParseReport)
        ensures
            r@ == self@,
    {
        self.copy()
    }
}

/// Model of a `Vec<ParseError>`.
pub open spec fn parse_errors_view(v: Vec<ParseError>) -> Seq<ParseErrorModel>
    decreases v,
{
    Seq::new(v@.len(), |i: int| if 0 <= i < v@.len() { parse_error_view(v@[i]) } else { arbitrary() })
}

pub fn copy_parse_errors(v: &Vec<ParseError>) -> (r: Vec<ParseError>)
    ensures
        parse_errors_view(r) == parse_errors_view(*v),
    decreases v,
{
    let mut out: Vec<ParseError> = Vec::new();
    for i in 0..v.len()
        invariant
            out@.len() == i,
            forall|j: int| 0 <= j < i ==> parse_errors_view(out)[j] == parse_errors_view(*v)[j],
    {
        let ghost before = out;
        out.push(v[i].copy());
        assert forall|j: int| 0 <= j < i + 1 implies parse_errors_view(out)[j] == parse_errors_view(*v)[j] by {
            if j < i {
                assert(out@[j] == before@[j]);
                assert(parse_errors_view(before)[j] == parse_errors_view(*v)[j]);
            }
        }
    }
    assert(parse_errors_view(out) =~= parse_errors_view(*v));
    out
}

/// An error at a place in the source. One that has a place keeps it.
pub open spec fn located(e: ParseErrorModel, span: (usize, usize)) -> ParseErrorModel {
    match e {
        ParseErrorModel::At { .. } => e,
        _ => ParseErrorModel::At { error: Box::new(e), span },
    }
}

impl ParseError {
    /// The error at a place in the source.
    pub fn at(self, span: (usize, usize)) -> (r: ParseError)
        ensures
            r@ == located(self@, span),
    {
        match self {
            ParseError::At { error, span: known } => ParseError::At { error, span: known },
            other => ParseError::At { error: Box::new(other), span },
        }
    }
}

/// Shorthand for the rejection of a token.
pub open spec fn unexpected(token: TokenModel, message: Seq<char>) -> ParseErrorModel {
    ParseErrorModel::UnexpectedToken(token, message)
}

/// The rejection of a token.
pub fn reject(token: Token, message: &str) -> (r: ParseError)
    ensures
        r@ == unexpected(token@, message@),
{
    ParseError::UnexpectedToken(token, message.to_owned())
}

/// The place of a level among the others: a higher one binds tighter.
pub open spec fn binding_power(level: Precedence) -> nat {
    match level {
        Precedence::Lowest => 0,
        Precedence::Walrus => 1,
        Precedence::Conditional => 2,
        Precedence::Or => 3,
        Precedence::And => 4,
        Precedence::Not => 5,
        Precedence::Comparison => 6,
        Precedence::Sum => 7,
        Precedence::Product => 8,
        Precedence::Unary => 9,
        Precedence::Power => 10,
        Precedence::Call => 11,
    }
}

impl Precedence {
    /// The place of a level among the others.
    pub fn power(self) -> (r: u8)
        ensures
            r == binding_power(self),
    {
        match self {
            Precedence::Lowest => 0,
            Precedence::Walrus => 1,
            Precedence::Conditional => 2,
            Precedence::Or => 3,
            Precedence::And => 4,
            Precedence::Not => 5,
            Precedence::Comparison => 6,
            Precedence::Sum => 7,
            Precedence::Product => 8,
            Precedence::Unary => 9,
            Precedence::Power => 10,
            Precedence::Call => 11,
        }
    }
}

/// The convention that a word names. `read` names none.
pub open spec fn convention_of(word: Seq<char>) -> Option<ArgConvention> {
    if word == "imm"@ {
        Some(ArgConvention::Imm)
    } else if word == "mut"@ {
        Some(ArgConvention::Mut)
    } else if word == "out"@ {
        Some(ArgConvention::Out)
    } else if word == "ref"@ {
        Some(ArgConvention::Ref)
    } else if word == "deinit"@ {
        Some(ArgConvention::Deinit)
    } else {
        None
    }
}

/// The convention that a contextual word names.
pub fn convention_word(word: &str) -> (r: Option<ArgConvention>)
    ensures
        r == convention_of(word@),
{
    if str_eq(word, "imm") {
        Some(ArgConvention::Imm)
    } else if str_eq(word, "mut") {
        Some(ArgConvention::Mut)
    } else if str_eq(word, "out") {
        Some(ArgConvention::Out)
    } else if str_eq(word, "ref") {
        Some(ArgConvention::Ref)
    } else if str_eq(word, "deinit") {
        Some(ArgConvention::Deinit)
    } else {
        None
    }
}

/// The rejection of the removed `read` convention.
pub open spec fn read_removed() -> ParseErrorModel {
    unexpected(TokenModel::Identifier("read"@), "'read' was removed; use 'imm'"@)
}

/// The rejection of the removed `read` convention, where the word is that.
pub fn removed_convention_error(word: &str) -> (r: Option<ParseError>)
    ensures
        match r {
            Some(e) => word@ == "read"@ && e@ == read_removed(),
            None => word@ != "read"@,
        },
{
    if str_eq(word, "read") {
        Some(reject(Token::Identifier(word.to_owned()), "'read' was removed; use 'imm'"))
    } else {
        None
    }
}

/// The name that a callee spells.
pub open spec fn callee_name(callee: ExprModel) -> Result<Seq<char>, ParseErrorModel> {
    match callee.kind {
        ExprKindModel::Identifier(name) => Ok(name),
        other => Err(
            unexpected(
                TokenModel::LParen,
                "only named functions can be called, found "@ + expr_kind_debug(other),
            ),
        ),
    }
}

/// The name of the function that a call calls: the callee is a bare name.
pub fn call_name(callee: Expr) -> (r: Result<String, ParseError>)
    ensures
        match r {
            Ok(name) => callee_name(callee@) == Ok::<Seq<char>, ParseErrorModel>(name@),
            Err(e) => callee_name(callee@) == Err::<Seq<char>, ParseErrorModel>(e@),
        },
{
    match callee.kind {
        ExprKind::Identifier(name) => Ok(name),
        other => Err(
            reject(
                Token::LParen,
                &cat2("only named functions can be called, found ", &debug_expr_kind(&other)),
            )
        ),
    }
}

/// Whether an expression is an application of `origin_of` to plain arguments.
pub open spec fn names_origin(e: ExprModel) -> bool {
    match e.kind {
        ExprKindModel::Call {
            name,
            param_args,
            kwargs,
            args,
        } => name == "origin_of"@ && param_args.len() == 0
            && kwargs.len() == 0 && args.len() != 0,
        _ => false,
    }
}

/// Whether a bracket argument is an origin specialization: `origin_of(...)` never
/// has a runtime value, so it cannot be a subscript.
pub fn is_explicit_origin_argument(expression: &Expr) -> (r: bool)
    ensures
        r == names_origin(expression@),
{
    match &expression.kind {
        ExprKind::Call { name, param_args, kwargs, args } => {
            assert(source_args_view(*param_args).len() == param_args@.len());
            assert(kw_args_view(*kwargs).len() == kwargs@.len());
            assert(exprs_view(*args).len() == args@.len());
            str_eq(name, "origin_of") && param_args.len() == 0 && kwargs.len() == 0 && args.len() != 0
        },
        _ => false,
    }
}

/// Parts with a text behind them, joined to a text that ends them.
pub open spec fn with_literal(parts: Seq<TStringPartModel>, text: Seq<char>) -> Seq<TStringPartModel> {
    if text.len() == 0 {
        parts
    } else if parts.len() > 0 && parts.last() is Literal {
        parts.drop_last().push(TStringPartModel::Literal(parts.last()->Literal_0 + text))
    } else {
        parts.push(TStringPartModel::Literal(text))
    }
}

/// Adds a text to the parts of a template string; neighbouring texts become one.
pub fn push_tstring_literal(parts: &mut Vec<TStringPart>, text: String)
    ensures
        tstring_parts_view(*final(parts)) == with_literal(tstring_parts_view(*old(parts)), text@),
{
    let ghost before = tstring_parts_view(*parts);
    assert(before.len() == parts@.len());
    if str_eq(&text, "") {
        proof {
            reveal_strlit("");
        }
        return;
    }
    proof {
        reveal_strlit("");
        if text@.len() == 0 {
            assert(text@ =~= ""@);
        }
    }
    match parts.pop() {
        Some(last) => {
            assert(before.last() == last@);
            assert(tstring_parts_view(*parts) =~= before.drop_last());
            match last {
                TStringPart::Literal(previous) => {
                    parts.push(TStringPart::Literal(cat2(&previous, &text)));
                    assert(tstring_parts_view(*parts) =~= with_literal(before, text@));
                },
                other => {
                    parts.push(other);
                    parts.push(TStringPart::Literal(text));
                    assert(tstring_parts_view(*parts) =~= with_literal(before, text@));
                },
            }
        },
        None => {
            parts.push(TStringPart::Literal(text));
            assert(tstring_parts_view(*parts) =~= with_literal(before, text@));
        },
    }
}

/// Neighbouring texts stay joined: no two texts stand side by side.
pub open spec fn texts_joined(parts: Seq<TStringPartModel>) -> bool {
    forall|i: int|
        0 <= i < parts.len() - 1 ==> !((#[trigger] parts[i]) is Literal && parts[i + 1] is Literal)
}

/// Adding texts keeps the parts of a template string compact.
pub proof fn law_texts_stay_joined(parts: Seq<TStringPartModel>, text: Seq<char>)
    requires
        texts_joined(parts),
    ensures
        texts_joined(with_literal(parts, text)),
{
    let after = with_literal(parts, text);
    assert forall|i: int| 0 <= i < after.len() - 1 implies !(
        (#[trigger] after[i]) is Literal && after[i + 1] is Literal
    ) by {
        if i < parts.len() - 1 {
            assert(!(parts[i] is Literal && parts[i + 1] is Literal));
        }
    }
}

/// The name that a compile-time keyword argument gives.
pub open spec fn argument_name(arg: ParamArgModel) -> Result<Seq<char>, ParseErrorModel> {
    match arg {
        ParamArgModel::Value(e) => match e.kind {
            ExprKindModel::Identifier(name) => Ok(name),
            _ => Err(unexpected(TokenModel::Assign, "a compile-time keyword argument requires a name"@)),
        },
        _ => Err(unexpected(TokenModel::Assign, "a compile-time keyword argument requires a name"@)),
    }
}

/// The name that a compile-time keyword argument gives.
pub fn param_argument_name(arg: &ParamArg) -> (r: Result<String, ParseError>)
    ensures
        match r {
            Ok(name) => argument_name(arg@) == Ok::<Seq<char>, ParseErrorModel>(name@),
            Err(e) => argument_name(arg@) == Err::<Seq<char>, ParseErrorModel>(e@),
        },
{
    if let ParamArg::Value(e) = arg {
        if let ExprKind::Identifier(name) = &e.kind {
            return Ok(name.clone());
        }
    }
    Err(reject(Token::Assign, "a compile-time keyword argument requires a name"))
}

/// Whether a character has the Unicode property `Lowercase`.
pub uninterp spec fn lowercase(c: char) -> bool;

/// `char::is_lowercase` tells the Unicode property `Lowercase` of a character: a fixed
/// property, which among the characters of ASCII only the letters `a` to `z` have.
pub assume_specification[ char::is_lowercase ](c: char) -> (r: bool)
    ensures
        r == lowercase(c),
        c <= '\x7f' ==> r == ('a' <= c <= 'z'),
;

/// Whether an expression is a name that starts with a lowercase letter.
pub open spec fn lowercase_name(e: ExprModel) -> bool {
    match e.kind {
        ExprKindModel::Identifier(name) => name.len() > 0 && lowercase(name[0]),
        _ => false,
    }
}

/// Whether an expression is a name that starts with a lowercase letter.
pub fn expression_name_starts_lowercase(expression: &Expr) -> (r: bool)
    ensures
        r == lowercase_name(expression@),
{
    match &expression.kind {
        ExprKind::Identifier(name) => {
            let letters: Vec<char> = chars_of(name);
            letters.len() > 0 && letters[0].is_lowercase()
        },
        _ => false,
    }
}

/// The operator of an augmented assignment.
pub open spec fn augmented(t: TokenModel) -> Option<InfixOp> {
    match t {
        TokenModel::PlusEq => Some(InfixOp::Add),
        TokenModel::MinusEq => Some(InfixOp::Sub),
        TokenModel::StarEq => Some(InfixOp::Mul),
        TokenModel::SlashEq => Some(InfixOp::Div),
        TokenModel::DoubleSlashEq => Some(InfixOp::FloorDiv),
        TokenModel::PercentEq => Some(InfixOp::Mod),
        TokenModel::DoubleStarEq => Some(InfixOp::Pow),
        TokenModel::AmpEq => Some(InfixOp::BitAnd),
        TokenModel::PipeEq => Some(InfixOp::BitOr),
        TokenModel::CaretEq => Some(InfixOp::BitXor),
        _ => None,
    }
}

/// The operator that an augmented assignment applies.
pub fn aug_assign_op(tok: &Token) -> (r: Option<InfixOp>)
    ensures
        r == augmented(tok@),
{
    match tok {
        Token::PlusEq => Some(InfixOp::Add),
        Token::MinusEq => Some(InfixOp::Sub),
        Token::StarEq => Some(InfixOp::Mul),
        Token::SlashEq => Some(InfixOp::Div),
        Token::DoubleSlashEq => Some(InfixOp::FloorDiv),
        Token::PercentEq => Some(InfixOp::Mod),
        Token::DoubleStarEq => Some(InfixOp::Pow),
        Token::AmpEq => Some(InfixOp::BitAnd),
        Token::PipeEq => Some(InfixOp::BitOr),
        Token::CaretEq => Some(InfixOp::BitXor),
        _ => None,
    }
}

/// The level at which the right operand of an operator is read.
pub open spec fn right_level(op: InfixOp) -> Precedence {
    match op {
        InfixOp::Or => Precedence::Or,
        InfixOp::And => Precedence::And,
        InfixOp::Eq | InfixOp::Ne | InfixOp::Lt | InfixOp::Gt | InfixOp::Le | InfixOp::Ge | InfixOp::In
        | InfixOp::NotIn => Precedence::Comparison,
        InfixOp::Add | InfixOp::Sub | InfixOp::Shl | InfixOp::Shr | InfixOp::BitAnd | InfixOp::BitOr
        | InfixOp::BitXor => Precedence::Sum,
        InfixOp::Mul | InfixOp::Div | InfixOp::FloorDiv | InfixOp::Mod | InfixOp::MatMul => Precedence::Product,
        InfixOp::Pow => Precedence::Unary,
    }
}

/// The level at which the right operand of an operator is read. Operators associate
/// to the left, but for `**`, whose right operand takes a `**` that follows.
pub fn infix_precedence(op: InfixOp) -> (r: Precedence)
    ensures
        r == right_level(op),
{
    match op {
        InfixOp::Or => Precedence::Or,
        InfixOp::And => Precedence::And,
        InfixOp::Eq | InfixOp::Ne | InfixOp::Lt | InfixOp::Gt | InfixOp::Le | InfixOp::Ge | InfixOp::In
        | InfixOp::NotIn => Precedence::Comparison,
        InfixOp::Add | InfixOp::Sub | InfixOp::Shl | InfixOp::Shr | InfixOp::BitAnd | InfixOp::BitOr
        | InfixOp::BitXor => Precedence::Sum,
        InfixOp::Mul | InfixOp::Div | InfixOp::FloorDiv | InfixOp::Mod | InfixOp::MatMul => Precedence::Product,
        InfixOp::Pow => Precedence::Unary,
    }
}

/// Whether a type is `Self.o` or a chain of projections rooted at it whose
/// applications have at most one argument, a value.
pub open spec fn self_rooted(ty: TypeModel) -> bool
    decreases ty,
{
    match ty {
        TypeModel::SelfParam(_) => true,
        TypeModel::Assoc { base, name: _, args } => self_rooted(*base) && (args.len() == 0 || (args.len() == 1
            && args[0] is Value)),
        TypeModel::IndexedProjection { base, index: _ } => self_rooted(*base),
        _ => false,
    }
}

/// Whether a type can be read again as an origin expression.
pub fn self_param_rooted_expression(ty: &Type) -> (r: Option<()>)
    ensures
        r is Some == self_rooted(ty@),
    decreases ty,
{
    match ty {
        Type::SelfParam(_) => Some(()),
        Type::Assoc { base, name: _, args } => {
            if self_param_rooted_expression(base).is_none() {
                return None;
            }
            assert(source_args_view(*args).len() == args@.len());
            if args.len() == 0 {
                return Some(());
            }
            assert(source_args_view(*args)[0] == args@[0]@);
            if args.len() == 1 {
                if let ParamArg::Value(_) = &args[0] {
                    return Some(());
                }
            }
            None
        },
        Type::IndexedProjection { base, index: _ } => self_param_rooted_expression(base),
        _ => None,
    }
}

} // verus!
