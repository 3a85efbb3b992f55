//! Simple statements and the parts of compound ones.

use crate::ast::{
    Capture, CaptureKind, CaptureList, CaptureListModel, CaptureModel, Decorator, DecoratorModel,
    Expr, ExprKind, ExprKindModel, ExprModel, ImportName, ImportNameModel, ImportNames,
    ImportNamesModel, InfixOp, KwArg, KwArgModel, LoopBindingMode, ParamArg, ParamArgModel, Stmt,
    StmtKind, StmtKindModel, StmtModel, Type, TypeModel, TypeParam, TypeParamModel, WithItem,
    WithItemModel, decorators_view, exprs_view, imported_names_view, kw_args_view,
    opt_capture_list_view, opt_expr_view, opt_type_view, source_args_view, source_captures_view,
    stmts_view, type_params_view, with_items_view,
};
use crate::data::{opt_string_view, strings_view};
use crate::debug::{debug_expr_kind, expr_kind_debug};
use crate::parser::{
    ParamList, ParamListModel, ParseError, ParseErrorModel, Precedence, aug_assign_op, augmented,
    read_removed, reject, unexpected,
};
use crate::parser::driver::{
    Cursor, Parsed, Parser, ahead, ended, expected, expr_at, identifier, is_name, is_word, left,
    names_something, node_at, peeked, stalled, taken, token_is, told_unit, word_is,
};
use crate::text::{cat2, cat3, str_eq};
use crate::token::{Token, TokenModel};
use vstd::prelude::*;

verus! {

/// Positional and keyword arguments.
pub type CallArgs = (Vec<Expr>, Vec<KwArg>);

/// Model of [`CallArgs`].
pub type CallArgsModel = (Seq<ExprModel>, Seq<KwArgModel>);

/// The parts that statements are made of. Each is read from a place in the tokens; the
/// result and the place it leaves off at depend on that place alone.
pub trait Grammar: Sized {
    /// An expression whose operators bind tighter than a level.
    spec fn expression(&self, s: Cursor, level: Precedence) -> Parsed<ExprModel>;

    /// No expression starts with a change of indentation.
    proof fn rejects_layout(&self, s: Cursor)
        requires
            peeked(s) matches Ok(Some(TokenModel::Indent)) || peeked(s) matches Ok(Some(TokenModel::Dedent)),
        ensures
            self.expression(s, Precedence::Lowest) is Err,
    ;

    /// A type.
    spec fn annotation(&self, s: Cursor) -> Parsed<TypeModel>;

    /// Compile-time parameters, none where no `[` is ahead.
    spec fn type_params(&self, s: Cursor) -> Parsed<Seq<TypeParamModel>>;

    /// Parameters, up to the `)`.
    spec fn params(&self, s: Cursor) -> Parsed<ParamListModel>;

    /// Arguments, up to the `)`.
    spec fn call_args(&self, s: Cursor) -> Parsed<CallArgsModel>;

    /// A struct, from its keyword.
    spec fn struct_item(&self, s: Cursor, decorators: Seq<DecoratorModel>) -> Parsed<StmtKindModel>;

    /// A trait, from its keyword.
    spec fn trait_item(&self, s: Cursor) -> Parsed<StmtKindModel>;

    /// Effects that leave no trace.
    spec fn erased_effects(&self, s: Cursor) -> Parsed<()>;

    /// Reads an expression: at least one token.
    fn parse_expression(&self, p: &mut Parser, level: Precedence) -> (r: Result<Expr, ParseError>)
        ensures
            told_expr(r, final(p)@) == self.expression(old(p)@, level),
            left(final(p)@) <= left(old(p)@),
            r is Ok ==> left(final(p)@) < left(old(p)@),
    ;

    /// Reads a type: at least one token.
    fn parse_type(&self, p: &mut Parser) -> (r: Result<Type, ParseError>)
        ensures
            told_type(r, final(p)@) == self.annotation(old(p)@),
            left(final(p)@) <= left(old(p)@),
            r is Ok ==> left(final(p)@) < left(old(p)@),
    ;

    /// Reads compile-time parameters, if there are any.
    fn parse_type_params(&self, p: &mut Parser) -> (r: Result<Vec<TypeParam>, ParseError>)
        ensures
            told_type_params(r, final(p)@) == self.type_params(old(p)@),
            left(final(p)@) <= left(old(p)@),
    ;

    /// Reads parameters.
    fn parse_params(&self, p: &mut Parser) -> (r: Result<ParamList, ParseError>)
        ensures
            told_params(r, final(p)@) == self.params(old(p)@),
            left(final(p)@) <= left(old(p)@),
    ;

    /// Reads arguments.
    fn parse_call_args(&self, p: &mut Parser) -> (r: Result<CallArgs, ParseError>)
        ensures
            told_args(r, final(p)@) == self.call_args(old(p)@),
            left(final(p)@) <= left(old(p)@),
    ;

    /// Reads a struct: at least its keyword.
    fn parse_struct(&self, p: &mut Parser, decorators: Vec<Decorator>) -> (r: Result<StmtKind, ParseError>)
        ensures
            told_kind(r, final(p)@) == self.struct_item(old(p)@, decorators_view(decorators)),
            left(final(p)@) <= left(old(p)@),
            r is Ok ==> left(final(p)@) < left(old(p)@),
    ;

    /// Reads a trait: at least its keyword.
    fn parse_trait(&self, p: &mut Parser) -> (r: Result<StmtKind, ParseError>)
        ensures
            told_kind(r, final(p)@) == self.trait_item(old(p)@),
            left(final(p)@) <= left(old(p)@),
            r is Ok ==> left(final(p)@) < left(old(p)@),
    ;

    /// Reads effects that leave no trace: at least one token.
    fn parse_erased_callable_effects(&self, p: &mut Parser) -> (r: Result<(), ParseError>)
        ensures
            told_unit(r, final(p)@) == self.erased_effects(old(p)@),
            left(final(p)@) <= left(old(p)@),
            r is Ok ==> left(final(p)@) < left(old(p)@),
    ;
}

/// What reading a flag comes to, and where it leaves off.
pub open spec fn told_flag(r: Result<bool, ParseError>, s: Cursor) -> Parsed<bool> {
    match r {
        Ok(v) => Ok((s, v)),
        Err(e) => Err((s, e@)),
    }
}

/// What reading words comes to, and where it leaves off.
pub open spec fn told_words(r: Result<Vec<String>, ParseError>, s: Cursor) -> Parsed<Seq<Seq<char>>> {
    match r {
        Ok(v) => Ok((s, strings_view(v))),
        Err(e) => Err((s, e@)),
    }
}

/// What reading a word, if any comes to, and where it leaves off.
pub open spec fn told_opt_word(r: Result<Option<String>, ParseError>, s: Cursor) -> Parsed<Option<Seq<char>>> {
    match r {
        Ok(v) => Ok((s, opt_string_view(v))),
        Err(e) => Err((s, e@)),
    }
}

/// What reading an expression comes to, and where it leaves off.
pub open spec fn told_expr(r: Result<Expr, ParseError>, s: Cursor) -> Parsed<ExprModel> {
    match r {
        Ok(v) => Ok((s, v@)),
        Err(e) => Err((s, e@)),
    }
}

/// What reading expressions comes to, and where it leaves off.
pub open spec fn told_exprs(r: Result<Vec<Expr>, ParseError>, s: Cursor) -> Parsed<Seq<ExprModel>> {
    match r {
        Ok(v) => Ok((s, exprs_view(v))),
        Err(e) => Err((s, e@)),
    }
}

/// What reading an expression, if any comes to, and where it leaves off.
pub open spec fn told_opt_expr(r: Result<Option<Expr>, ParseError>, s: Cursor) -> Parsed<Option<ExprModel>> {
    match r {
        Ok(v) => Ok((s, opt_expr_view(v))),
        Err(e) => Err((s, e@)),
    }
}

/// What reading a type comes to, and where it leaves off.
pub open spec fn told_type(r: Result<Type, ParseError>, s: Cursor) -> Parsed<TypeModel> {
    match r {
        Ok(v) => Ok((s, v@)),
        Err(e) => Err((s, e@)),
    }
}

/// What reading a type, if any comes to, and where it leaves off.
pub open spec fn told_opt_type(r: Result<Option<Type>, ParseError>, s: Cursor) -> Parsed<Option<TypeModel>> {
    match r {
        Ok(v) => Ok((s, opt_type_view(v))),
        Err(e) => Err((s, e@)),
    }
}

/// What reading effects comes to, and where it leaves off.
pub open spec fn told_effects(
    r: Result<(bool, Option<Type>), ParseError>,
    s: Cursor,
) -> Parsed<(bool, Option<TypeModel>)> {
    match r {
        Ok(v) => Ok((s, (v.0, opt_type_view(v.1)))),
        Err(e) => Err((s, e@)),
    }
}

/// What reading a statement without its range comes to, and where it leaves off.
pub open spec fn told_kind(r: Result<StmtKind, ParseError>, s: Cursor) -> Parsed<StmtKindModel> {
    match r {
        Ok(v) => Ok((s, v@)),
        Err(e) => Err((s, e@)),
    }
}

/// What reading compile-time parameters comes to, and where it leaves off.
pub open spec fn told_type_params(
    r: Result<Vec<TypeParam>, ParseError>,
    s: Cursor,
) -> Parsed<Seq<TypeParamModel>> {
    match r {
        Ok(v) => Ok((s, type_params_view(v))),
        Err(e) => Err((s, e@)),
    }
}

/// What reading a parameter list comes to, and where it leaves off.
pub open spec fn told_params(r: Result<ParamList, ParseError>, s: Cursor) -> Parsed<ParamListModel> {
    match r {
        Ok(v) => Ok((s, v@)),
        Err(e) => Err((s, e@)),
    }
}

/// What reading call arguments comes to, and where it leaves off.
pub open spec fn told_args(
    r: Result<CallArgs, ParseError>,
    s: Cursor,
) -> Parsed<(Seq<ExprModel>, Seq<KwArgModel>)> {
    match r {
        Ok(v) => Ok((s, (exprs_view(v.0), kw_args_view(v.1)))),
        Err(e) => Err((s, e@)),
    }
}

/// What reading decorators comes to, and where it leaves off.
pub open spec fn told_decorators(
    r: Result<Vec<Decorator>, ParseError>,
    s: Cursor,
) -> Parsed<Seq<DecoratorModel>> {
    match r {
        Ok(v) => Ok((s, decorators_view(v))),
        Err(e) => Err((s, e@)),
    }
}

/// What reading a capture list, if any comes to, and where it leaves off.
pub open spec fn told_captures(
    r: Result<Option<CaptureList>, ParseError>,
    s: Cursor,
) -> Parsed<Option<CaptureListModel>> {
    match r {
        Ok(v) => Ok((s, opt_capture_list_view(v))),
        Err(e) => Err((s, e@)),
    }
}

/// What reading a capture convention, if any comes to, and where it leaves off.
pub open spec fn told_capture_kind(
    r: Result<Option<CaptureKind>, ParseError>,
    s: Cursor,
) -> Parsed<Option<CaptureKind>> {
    match r {
        Ok(v) => Ok((s, v)),
        Err(e) => Err((s, e@)),
    }
}

/// What reading imported names comes to, and where it leaves off.
pub open spec fn told_names(r: Result<ImportNames, ParseError>, s: Cursor) -> Parsed<ImportNamesModel> {
    match r {
        Ok(v) => Ok((s, v@)),
        Err(e) => Err((s, e@)),
    }
}

/// What reading imported names comes to, and where it leaves off.
pub open spec fn told_imports(
    r: Result<Vec<ImportName>, ParseError>,
    s: Cursor,
) -> Parsed<Seq<ImportNameModel>> {
    match r {
        Ok(v) => Ok((s, imported_names_view(v))),
        Err(e) => Err((s, e@)),
    }
}

/// What reading a number of dots comes to, and where it leaves off.
pub open spec fn told_level(r: Result<usize, ParseError>, s: Cursor) -> Parsed<usize> {
    match r {
        Ok(v) => Ok((s, v)),
        Err(e) => Err((s, e@)),
    }
}

/// What reading a binding mode comes to, and where it leaves off.
pub open spec fn told_mode(r: Result<LoopBindingMode, ParseError>, s: Cursor) -> Parsed<LoopBindingMode> {
    match r {
        Ok(v) => Ok((s, v)),
        Err(e) => Err((s, e@)),
    }
}

/// What reading managers comes to, and where it leaves off.
pub open spec fn told_items(r: Result<Vec<WithItem>, ParseError>, s: Cursor) -> Parsed<Seq<WithItemModel>> {
    match r {
        Ok(v) => Ok((s, with_items_view(v))),
        Err(e) => Err((s, e@)),
    }
}

/// What reading the head of a loop comes to, and where it leaves off.
pub open spec fn told_loop_head(
    r: Result<(String, LoopBindingMode, Expr), ParseError>,
    s: Cursor,
) -> Parsed<(Seq<char>, LoopBindingMode, ExprModel)> {
    match r {
        Ok(v) => Ok((s, (v.0@, v.1, v.2@))),
        Err(e) => Err((s, e@)),
    }
}
/// An empty list.
pub(crate) fn no_words() -> (r: Vec<String>)
    ensures
        strings_view(r) == Seq::<Seq<char>>::empty(),
{
    let r: Vec<String> = Vec::new();
    assert(strings_view(r) =~= Seq::empty());
    r
}

/// An empty list.
pub(crate) fn no_exprs() -> (r: Vec<Expr>)
    ensures
        exprs_view(r) == Seq::<ExprModel>::empty(),
{
    let r: Vec<Expr> = Vec::new();
    assert(exprs_view(r) =~= Seq::empty());
    r
}

/// An empty list.
pub(crate) fn no_kw_args() -> (r: Vec<KwArg>)
    ensures
        kw_args_view(r) == Seq::<KwArgModel>::empty(),
{
    let r: Vec<KwArg> = Vec::new();
    assert(kw_args_view(r) =~= Seq::empty());
    r
}

/// An empty list.
pub(crate) fn no_source_args() -> (r: Vec<ParamArg>)
    ensures
        source_args_view(r) == Seq::<ParamArgModel>::empty(),
{
    let r: Vec<ParamArg> = Vec::new();
    assert(source_args_view(r) =~= Seq::empty());
    r
}

/// An empty list.
pub(crate) fn no_type_params() -> (r: Vec<TypeParam>)
    ensures
        type_params_view(r) == Seq::<TypeParamModel>::empty(),
{
    let r: Vec<TypeParam> = Vec::new();
    assert(type_params_view(r) =~= Seq::empty());
    r
}

/// An empty list.
pub(crate) fn no_decorators() -> (r: Vec<Decorator>)
    ensures
        decorators_view(r) == Seq::<DecoratorModel>::empty(),
{
    let r: Vec<Decorator> = Vec::new();
    assert(decorators_view(r) =~= Seq::empty());
    r
}

/// An empty list.
pub(crate) fn no_captures() -> (r: Vec<Capture>)
    ensures
        source_captures_view(r) == Seq::<CaptureModel>::empty(),
{
    let r: Vec<Capture> = Vec::new();
    assert(source_captures_view(r) =~= Seq::empty());
    r
}

/// An empty list.
pub(crate) fn no_imports() -> (r: Vec<ImportName>)
    ensures
        imported_names_view(r) == Seq::<ImportNameModel>::empty(),
{
    let r: Vec<ImportName> = Vec::new();
    assert(imported_names_view(r) =~= Seq::empty());
    r
}

/// An empty list.
pub(crate) fn no_with_items() -> (r: Vec<WithItem>)
    ensures
        with_items_view(r) == Seq::<WithItemModel>::empty(),
{
    let r: Vec<WithItem> = Vec::new();
    assert(with_items_view(r) =~= Seq::empty());
    r
}

/// An empty list.
pub(crate) fn no_stmts() -> (r: Vec<Stmt>)
    ensures
        stmts_view(r) == Seq::<StmtModel>::empty(),
{
    let r: Vec<Stmt> = Vec::new();
    assert(stmts_view(r) =~= Seq::empty());
    r
}

/// A list of one word.
pub(crate) fn one_word(x: String) -> (r: Vec<String>)
    ensures
        strings_view(r) == seq![x@],
{
    let mut r: Vec<String> = Vec::new();
    r.push(x);
    assert(strings_view(r) =~= seq![x@]);
    r
}

/// A list of one expression.
pub fn one_expr(x: Expr) -> (r: Vec<Expr>)
    ensures
        exprs_view(r) == seq![x@],
{
    let mut r: Vec<Expr> = Vec::new();
    r.push(x);
    assert(exprs_view(r) =~= seq![x@]);
    r
}

/// A list of expressions with one more.
fn with_expr(v: Vec<Expr>, x: Expr) -> (r: Vec<Expr>)
    ensures
        exprs_view(r) == exprs_view(v).push(x@),
{
    let mut r = v;
    r.push(x);
    assert(exprs_view(r) =~= exprs_view(v).push(x@));
    r
}

/// A number of dots and some more, as far as a machine number goes.
pub open spec fn dots(level: usize, more: int) -> usize {
    if level + more <= usize::MAX { (level + more) as usize } else { usize::MAX }
}

fn add_dots(level: usize, more: usize) -> (r: usize)
    ensures
        r == dots(level, more as int),
{
    if level <= usize::MAX - more { level + more } else { usize::MAX }
}

/// Whether an expression can be unpacked into.
pub open spec fn is_target(kind: ExprKindModel) -> bool {
    kind is Identifier || kind is Member || kind is Index
}

/// Whether an expression can be assigned to in place.
pub open spec fn is_place(kind: ExprKindModel) -> bool {
    is_target(kind) || kind is Slice || kind is MultiIndex || kind is TypeApply
}

fn place_like(kind: &ExprKind) -> (r: bool)
    ensures
        r == is_place(kind@),
{
    match kind {
        ExprKind::Identifier(_)
        | ExprKind::Member { .. }
        | ExprKind::Index { .. }
        | ExprKind::Slice { .. }
        | ExprKind::MultiIndex { .. }
        | ExprKind::TypeApply { .. } => true,
        _ => false,
    }
}

/// The diagnostic form of the first expression that cannot be unpacked into.
pub open spec fn bad_target(targets: Seq<ExprModel>) -> Option<Seq<char>>
    decreases targets.len(),
{
    if targets.len() == 0 {
        None
    } else {
        match bad_target(targets.drop_last()) {
            Some(form) => Some(form),
            None => if is_target(targets.last().kind) { None } else { Some(expr_kind_debug(targets.last().kind)) },
        }
    }
}

proof fn lemma_bad_target(targets: Seq<ExprModel>, n: int)
    requires
        0 <= n <= targets.len(),
        bad_target(targets.take(n)) is Some,
    ensures
        bad_target(targets) == bad_target(targets.take(n)),
    decreases targets.len() - n,
{
    if n < targets.len() {
        assert(targets.take(n + 1).drop_last() =~= targets.take(n));
        lemma_bad_target(targets, n + 1);
    } else {
        assert(targets.take(n) =~= targets);
    }
}

fn find_bad_target(targets: &Vec<Expr>) -> (r: Option<String>)
    ensures
        match r {
            Some(form) => bad_target(exprs_view(*targets)) == Some(form@),
            None => bad_target(exprs_view(*targets)) is None,
        },
{
    let ghost model = exprs_view(*targets);
    assert(model.len() == targets@.len());
    for i in 0..targets.len()
        invariant
            model == exprs_view(*targets),
            model.len() == targets@.len(),
            bad_target(model.take(i as int)) is None,
    {
        assert(model.take(i + 1).drop_last() =~= model.take(i as int));
        assert(model[i as int] == targets@[i as int]@);
        let fits: bool = match &targets[i].kind {
            ExprKind::Identifier(_) | ExprKind::Member { .. } | ExprKind::Index { .. } => true,
            _ => false,
        };
        if !fits {
            proof {
                lemma_bad_target(model, i + 1);
            }
            return Some(debug_expr_kind(&targets[i].kind));
        }
    }
    assert(model.take(targets@.len() as int) =~= model);
    None
}

/// The assignment of a value to a target, if the target can be assigned to.
pub open spec fn assignment(target: ExprModel, value: ExprModel) -> Option<StmtKindModel> {
    match target.kind {
        ExprKindModel::Identifier(name) => Some(StmtKindModel::Assign { name, value }),
        kind => if is_place(kind) { Some(StmtKindModel::SetPlace { place: target, value }) } else { None },
    }
}

fn make_assignment(target: Expr, value: Expr) -> (r: Option<StmtKind>)
    ensures
        match r {
            Some(stmt) => assignment(target@, value@) == Some(stmt@),
            None => assignment(target@, value@) is None,
        },
{
    if let ExprKind::Identifier(name) = target.kind {
        return Some(StmtKind::Assign { name, value });
    }
    if place_like(&target.kind) {
        Some(StmtKind::SetPlace { place: target, value })
    } else {
        None
    }
}

/// The operator of the augmented assignment ahead, if any.
pub open spec fn operator_ahead(t: Option<TokenModel>) -> Option<InfixOp> {
    match t {
        Some(x) => augmented(x),
        None => None,
    }
}

fn augmented_ahead(t: &Option<Token>) -> (r: Option<InfixOp>)
    ensures
        r == operator_ahead(ahead(*t)),
{
    match t {
        Some(x) => aug_assign_op(x),
        None => None,
    }
}

/// Whether a capture with this convention can be moved.
pub open spec fn movable(convention: Option<CaptureKind>) -> bool {
    convention is None || convention == Some(CaptureKind::Copy)
}

fn may_move(convention: Option<CaptureKind>) -> (r: bool)
    ensures
        r == movable(convention),
{
    match convention {
        None | Some(CaptureKind::Copy) => true,
        _ => false,
    }
}

/// How a capture enters the closure: plainly where nothing is said.
pub open spec fn capture_kind(convention: Option<CaptureKind>, moved: bool) -> CaptureKind {
    if moved {
        CaptureKind::Move
    } else {
        match convention {
            Some(kind) => kind,
            None => CaptureKind::Imm,
        }
    }
}

fn kind_of_capture(convention: Option<CaptureKind>, moved: bool) -> (r: CaptureKind)
    ensures
        r == capture_kind(convention, moved),
{
    if moved {
        CaptureKind::Move
    } else {
        match convention {
            Some(kind) => kind,
            None => CaptureKind::Imm,
        }
    }
}

/// Whether a name is captured already.
pub open spec fn captured(entries: Seq<CaptureModel>, name: Seq<char>) -> bool {
    exists|i: int| 0 <= i < entries.len() && (#[trigger] entries[i]).name == name
}

fn is_captured(entries: &Vec<Capture>, name: &String) -> (r: bool)
    ensures
        r == captured(source_captures_view(*entries), name@),
{
    let ghost model = source_captures_view(*entries);
    assert(model.len() == entries@.len());
    for i in 0..entries.len()
        invariant
            model == source_captures_view(*entries),
            model.len() == entries@.len(),
            forall|j: int| 0 <= j < i ==> (#[trigger] model[j]).name != name@,
    {
        assert(model[i as int] == entries@[i as int]@);
        if str_eq(&entries[i].name, name) {
            return true;
        }
    }
    false
}

/// The rejection of a name that is captured twice.
pub open spec fn duplicate(name: Seq<char>) -> ParseErrorModel {
    unexpected(TokenModel::Identifier(name), "duplicate capture '"@ + name + "'"@)
}

fn duplicate_capture(name: String) -> (r: ParseError)
    ensures
        r@ == duplicate(name@),
{
    let message: String = cat3("duplicate capture '", &name, "'");
    reject(Token::Identifier(name), &message)
}

/// The words behind the first of a dotted name.
pub open spec fn dotted_rest(start: Cursor, segments: Seq<Seq<char>>) -> Parsed<Seq<Seq<char>>>
    decreases left(start),
{
    let s = start;
    match peeked(s) { Err(f) => Err(f), Ok(t) =>
    if !(t == Some(TokenModel::Dot)) {
        Ok((s, segments))
    } else {
    match taken(s) { Err(f) => Err(f), Ok((s, _)) =>
    match identifier(s, "Expected a name after '.'"@) { Err(f) => Err(f), Ok((s, word)) =>
    { let segments = segments.push(word);
    if left(s) < left(start) { dotted_rest(s, segments) } else { stalled(s) } }}}}}
}

/// A dotted module name.
pub open spec fn dotted_name(start: Cursor) -> Parsed<Seq<Seq<char>>>
{
    let s = start;
    match identifier(s, "Expected a module name"@) { Err(f) => Err(f), Ok((s, first)) =>
    dotted_rest(s, seq![first]) }
}

/// An optional `as NAME`.
pub open spec fn import_alias(start: Cursor) -> Parsed<Option<Seq<char>>>
{
    let s = start;
    match peeked(s) { Err(f) => Err(f), Ok(t) =>
    if !(t == Some(TokenModel::As)) {
        Ok((s, None))
    } else {
    match taken(s) { Err(f) => Err(f), Ok((s, _)) =>
    match identifier(s, "Expected an alias name after 'as'"@) { Err(f) => Err(f), Ok((s, name)) =>
    Ok((s, Some(name))) }}}}
}

/// `import a.b.c [as alias]`
pub open spec fn import_stmt(start: Cursor) -> Parsed<StmtKindModel>
{
    let s = start;
    match expected(s, TokenModel::Import, "Expected 'import'"@) { Err(f) => Err(f), Ok((s, _)) =>
    match dotted_name(s) { Err(f) => Err(f), Ok((s, path)) =>
    match import_alias(s) { Err(f) => Err(f), Ok((s, alias)) =>
    match ended(s) { Err(f) => Err(f), Ok((s, _)) =>
    Ok((s, StmtKindModel::Import { path, alias })) }}}}
}

/// The dots that make an import relative; an ellipsis counts as three.
pub open spec fn import_level(start: Cursor, level: usize) -> Parsed<usize>
    decreases left(start),
{
    let s = start;
    match peeked(s) { Err(f) => Err(f), Ok(t) =>
    if t == Some(TokenModel::Dot) {
        match taken(s) { Err(f) => Err(f), Ok((s, _)) =>
        { let level = dots(level, 1);
        if left(s) < left(start) { import_level(s, level) } else { stalled(s) } }}
    } else {
    if t == Some(TokenModel::Ellipsis) {
        match taken(s) { Err(f) => Err(f), Ok((s, _)) =>
        { let level = dots(level, 3);
        if left(s) < left(start) { import_level(s, level) } else { stalled(s) } }}
    } else {
    Ok((s, level)) }}}
}

/// The path of an import, empty where it has none.
pub open spec fn import_path(start: Cursor) -> Parsed<Seq<Seq<char>>>
{
    let s = start;
    match peeked(s) { Err(f) => Err(f), Ok(t) =>
    if names_something(t) {
        dotted_name(s)
    } else {
    Ok((s, Seq::empty())) }}
}

/// Whether a list in parentheses ends here.
pub open spec fn names_end(start: Cursor, parenthesized: bool) -> Parsed<bool>
{
    let s = start;
    if !parenthesized {
        Ok((s, false))
    } else {
    match peeked(s) { Err(f) => Err(f), Ok(t) =>
    Ok((s, t == Some(TokenModel::RParen))) }}
}

/// The names of a `from` import, up to the `)` where they stand in parentheses.
pub open spec fn imported_names(
    start: Cursor,
    parenthesized: bool,
    targets: Seq<ImportNameModel>,
) -> Parsed<Seq<ImportNameModel>>
    decreases left(start),
{
    let s = start;
    match names_end(s, parenthesized) { Err(f) => Err(f), Ok((s, done)) =>
    if done {
        Ok((s, targets))
    } else {
    match identifier(s, "Expected an imported name"@) { Err(f) => Err(f), Ok((s, name)) =>
    match import_alias(s) { Err(f) => Err(f), Ok((s, alias)) =>
    { let targets = targets.push(ImportNameModel { name, alias });
    match peeked(s) { Err(f) => Err(f), Ok(t) =>
    if !(t == Some(TokenModel::Comma)) {
        Ok((s, targets))
    } else {
    match taken(s) { Err(f) => Err(f), Ok((s, _)) =>
    if left(s) < left(start) { imported_names(s, parenthesized, targets) } else { stalled(s) } }}}}}}}}
}

/// What a `from` import brings: everything, or names.
pub open spec fn import_targets(start: Cursor, parenthesized: bool) -> Parsed<ImportNamesModel>
{
    let s = start;
    match peeked(s) { Err(f) => Err(f), Ok(t) =>
    if t == Some(TokenModel::Star) {
        match taken(s) { Err(f) => Err(f), Ok((s, _)) =>
        Ok((s, ImportNamesModel::Wildcard)) }
    } else {
    match imported_names(s, parenthesized, Seq::empty()) { Err(f) => Err(f), Ok((s, names)) =>
    Ok((s, ImportNamesModel::Names(names))) }}}
}

/// The `)` behind imported names, where they stand in parentheses.
pub open spec fn import_close(start: Cursor, parenthesized: bool) -> Parsed<()>
{
    let s = start;
    if parenthesized {
        expected(s, TokenModel::RParen, "Expected ')' after imported names"@)
    } else {
    Ok((s, ())) }
}

/// The `(` ahead of imported names, if any.
pub open spec fn import_open(start: Cursor) -> Parsed<bool>
{
    let s = start;
    match peeked(s) { Err(f) => Err(f), Ok(t) =>
    if t == Some(TokenModel::LParen) {
        match taken(s) { Err(f) => Err(f), Ok((s, _)) =>
        Ok((s, true)) }
    } else {
    Ok((s, false)) }}
}

/// `from [.]*module import <targets>`
pub open spec fn from_import(start: Cursor) -> Parsed<StmtKindModel>
{
    let s = start;
    match expected(s, TokenModel::From, "Expected 'from'"@) { Err(f) => Err(f), Ok((s, _)) =>
    match import_level(s, 0usize) { Err(f) => Err(f), Ok((s, level)) =>
    match import_path(s) { Err(f) => Err(f), Ok((s, path)) =>
    if level == 0 && path.len() == 0 {
        Err((s, unexpected(TokenModel::From, "expected a module name after 'from'"@)))
    } else {
    match expected(s, TokenModel::Import, "Expected 'import' after the module name"@) {
    Err(f) => Err(f), Ok((s, _)) =>
    match import_open(s) { Err(f) => Err(f), Ok((s, parenthesized)) =>
    match import_targets(s, parenthesized) { Err(f) => Err(f), Ok((s, names)) =>
    match import_close(s, parenthesized) { Err(f) => Err(f), Ok((s, _)) =>
    match ended(s) { Err(f) => Err(f), Ok((s, _)) =>
    Ok((s, StmtKindModel::FromImport { level, path, names })) }}}}}}}}}
}

/// The elements of a tuple behind the first, each after a comma; a comma may end
/// them.
pub open spec fn elements_rest<G: Grammar>(
    g: G,
    start: Cursor,
    elements: Seq<ExprModel>,
) -> Parsed<Seq<ExprModel>>
    decreases left(start),
{
    let s = start;
    match peeked(s) { Err(f) => Err(f), Ok(t) =>
    if !(t == Some(TokenModel::Comma)) {
        Ok((s, elements))
    } else {
    match taken(s) { Err(f) => Err(f), Ok((s, _)) =>
    match peeked(s) { Err(f) => Err(f), Ok(t) =>
    if t == Some(TokenModel::Newline)
        || t == Some(TokenModel::Semicolon)
        || t == Some(TokenModel::Eof)
        || t is None {
        Ok((s, elements))
    } else {
    match g.expression(s, Precedence::Lowest) { Err(f) => Err(f), Ok((s, value)) =>
    { let elements = elements.push(value);
    if left(s) < left(start) { elements_rest(g, s, elements) } else { stalled(s) } }}}}}}}
}

/// An expression where a comma makes a tuple without parentheses.
pub open spec fn tuple_display<G: Grammar>(g: G, start: Cursor) -> Parsed<ExprModel>
{
    let s = start;
    match g.expression(s, Precedence::Lowest) { Err(f) => Err(f), Ok((s, first)) =>
    match peeked(s) { Err(f) => Err(f), Ok(t) =>
    if !(t == Some(TokenModel::Comma)) {
        Ok((s, first))
    } else {
    { let from = first.span.0;
    match elements_rest(g, s, seq![first]) { Err(f) => Err(f), Ok((s, elements)) =>
    Ok((s, node_at(s, ExprKindModel::TupleLit(elements), from))) }}}}}
}

/// The targets of an unpacking behind the first. A comma may stand before the `=`.
pub open spec fn targets_rest<G: Grammar>(
    g: G,
    start: Cursor,
    targets: Seq<ExprModel>,
) -> Parsed<Seq<ExprModel>>
    decreases left(start),
{
    let s = start;
    match peeked(s) { Err(f) => Err(f), Ok(t) =>
    if !(t == Some(TokenModel::Comma)) {
        Ok((s, targets))
    } else {
    match taken(s) { Err(f) => Err(f), Ok((s, _)) =>
    match peeked(s) { Err(f) => Err(f), Ok(t) =>
    if t == Some(TokenModel::Assign)
        || t == Some(TokenModel::Newline)
        || t == Some(TokenModel::Semicolon)
        || t == Some(TokenModel::Eof)
        || t is None {
        Ok((s, targets))
    } else {
    match g.expression(s, Precedence::Lowest) { Err(f) => Err(f), Ok((s, value)) =>
    { let targets = targets.push(value);
    if left(s) < left(start) { targets_rest(g, s, targets) } else { stalled(s) } }}}}}}}
}

/// A statement that starts with a list of expressions: an unpacking, or a tuple.
pub open spec fn unpacking<G: Grammar>(
    g: G,
    start: Cursor,
    targets: Seq<ExprModel>,
    from: usize,
) -> Parsed<StmtKindModel>
{
    let s = start;
    match peeked(s) { Err(f) => Err(f), Ok(t) =>
    if !(t == Some(TokenModel::Assign)) {
        { let display = node_at(s, ExprKindModel::TupleLit(targets), from);
        match ended(s) { Err(f) => Err(f), Ok((s, _)) =>
        Ok((s, StmtKindModel::Expr(display))) }}
    } else {
    match bad_target(targets) { Some(target) => {
        Err((s, unexpected(TokenModel::Comma, "invalid unpacking target: "@ + target)))
    }, _ =>
    match expected(s, TokenModel::Assign, "Expected '=' after the unpacking target list"@) {
    Err(f) => Err(f), Ok((s, _)) =>
    match tuple_display(g, s) { Err(f) => Err(f), Ok((s, value)) =>
    match ended(s) { Err(f) => Err(f), Ok((s, _)) =>
    Ok((s, StmtKindModel::Unpack { targets, value, declares: false })) }}}}}}
}

/// What follows the `=` of an assignment.
pub open spec fn assigned<G: Grammar>(g: G, start: Cursor, target: ExprModel) -> Parsed<StmtKindModel>
{
    let s = start;
    match tuple_display(g, s) { Err(f) => Err(f), Ok((s, value)) =>
    { let form = expr_kind_debug(target.kind);
    match assignment(target, value) { Some(stmt) => {
        match ended(s) { Err(f) => Err(f), Ok((s, _)) =>
        Ok((s, stmt)) }
    }, _ =>
    Err((s, unexpected(TokenModel::Assign, "invalid assignment target: "@ + form))) }}}
}

/// What follows the operator of an augmented assignment.
pub open spec fn augmented_assignment<G: Grammar>(
    g: G,
    start: Cursor,
    target: ExprModel,
    op: InfixOp,
) -> Parsed<StmtKindModel>
{
    let s = start;
    if !is_place(target.kind) {
        Err(
            (
                s,
                unexpected(
                    TokenModel::Assign,
                    "invalid augmented-assignment target: "@ + expr_kind_debug(target.kind),
                ),
            )
        )
    } else {
    match g.expression(s, Precedence::Lowest) { Err(f) => Err(f), Ok((s, value)) =>
    match ended(s) { Err(f) => Err(f), Ok((s, _)) =>
    Ok((s, StmtKindModel::AugAssign { place: target, op, value })) }}}
}

/// An expression statement, an assignment to a variable or a place, an augmented
/// assignment, or an unpacking. They share a leading expression.
pub open spec fn expr_or_assign<G: Grammar>(g: G, start: Cursor) -> Parsed<StmtKindModel>
{
    let s = start;
    match g.expression(s, Precedence::Lowest) { Err(f) => Err(f), Ok((s, target)) =>
    match peeked(s) { Err(f) => Err(f), Ok(t) =>
    if t == Some(TokenModel::Comma) {
        { let from = target.span.0;
        match targets_rest(g, s, seq![target]) { Err(f) => Err(f), Ok((s, targets)) =>
        unpacking(g, s, targets, from) }}
    } else {
    if t == Some(TokenModel::Assign) {
        match taken(s) { Err(f) => Err(f), Ok((s, _)) =>
        assigned(g, s, target) }
    } else {
    match operator_ahead(t) { Some(op) => {
        match taken(s) { Err(f) => Err(f), Ok((s, _)) =>
        augmented_assignment(g, s, target, op) }
    }, _ =>
    match ended(s) { Err(f) => Err(f), Ok((s, _)) =>
    Ok((s, StmtKindModel::Expr(target))) }}}}}}
}

/// The names of an unpacking declaration behind the first.
pub open spec fn names_rest(start: Cursor, targets: Seq<ExprModel>) -> Parsed<Seq<ExprModel>>
    decreases left(start),
{
    let s = start;
    match peeked(s) { Err(f) => Err(f), Ok(t) =>
    if !(t == Some(TokenModel::Comma)) {
        Ok((s, targets))
    } else {
    match taken(s) { Err(f) => Err(f), Ok((s, _)) =>
    match identifier(s, "Expected another variable name"@) { Err(f) => Err(f), Ok((s, name)) =>
    { let targets = targets.push(expr_at(ExprKindModel::Identifier(name), s.last_span));
    if left(s) < left(start) { names_rest(s, targets) } else { stalled(s) } }}}}}
}

/// An optional `: Type`.
pub open spec fn annotation_part<G: Grammar>(g: G, start: Cursor) -> Parsed<Option<TypeModel>>
{
    let s = start;
    match peeked(s) { Err(f) => Err(f), Ok(t) =>
    if !(t == Some(TokenModel::Colon)) {
        Ok((s, None))
    } else {
    match taken(s) { Err(f) => Err(f), Ok((s, _)) =>
    match g.annotation(s) { Err(f) => Err(f), Ok((s, ty)) =>
    Ok((s, Some(ty))) }}}}
}

/// An optional `= value`.
pub open spec fn initializer<G: Grammar>(g: G, start: Cursor) -> Parsed<ExprModel>
{
    let s = start;
    match peeked(s) { Err(f) => Err(f), Ok(t) =>
    if t == Some(TokenModel::Assign) {
        match taken(s) { Err(f) => Err(f), Ok((s, _)) =>
        tuple_display(g, s) }
    } else {
    Ok((s, expr_at(ExprKindModel::Uninitialized, s.last_span))) }}
}

/// `var name[: Type] [= value]`, or `var a, b = value`.
pub open spec fn var_decl<G: Grammar>(g: G, start: Cursor) -> Parsed<StmtKindModel>
{
    let s = start;
    match expected(s, TokenModel::Var, "Statements must begin with a keyword"@) {
    Err(f) => Err(f), Ok((s, _)) =>
    match identifier(s, "Expected identifier after 'var'"@) { Err(f) => Err(f), Ok((s, name)) =>
    match peeked(s) { Err(f) => Err(f), Ok(t) =>
    if t == Some(TokenModel::Comma) {
        match names_rest(s, seq![expr_at(ExprKindModel::Identifier(name), s.last_span)]) {
        Err(f) => Err(f), Ok((s, targets)) =>
        match expected(s, TokenModel::Assign, "Expected '=' after variable unpacking targets"@) {
        Err(f) => Err(f), Ok((s, _)) =>
        match tuple_display(g, s) { Err(f) => Err(f), Ok((s, value)) =>
        match ended(s) { Err(f) => Err(f), Ok((s, _)) =>
        Ok((s, StmtKindModel::Unpack { targets, value, declares: true })) }}}}
    } else {
    match annotation_part(g, s) { Err(f) => Err(f), Ok((s, ty)) =>
    match initializer(g, s) { Err(f) => Err(f), Ok((s, value)) =>
    match ended(s) { Err(f) => Err(f), Ok((s, _)) =>
    Ok((s, StmtKindModel::VarDecl { name, ty, value })) }}}}}}}
}

/// `ref name = expression`
pub open spec fn ref_decl<G: Grammar>(g: G, start: Cursor) -> Parsed<StmtKindModel>
{
    let s = start;
    match identifier(s, "Expected 'ref'"@) { Err(f) => Err(f), Ok((s, _)) =>
    match identifier(s, "Expected a name after 'ref'"@) { Err(f) => Err(f), Ok((s, name)) =>
    match expected(s, TokenModel::Assign, "Expected '=' after the reference name"@) {
    Err(f) => Err(f), Ok((s, _)) =>
    match g.expression(s, Precedence::Lowest) { Err(f) => Err(f), Ok((s, value)) =>
    match ended(s) { Err(f) => Err(f), Ok((s, _)) =>
    Ok((s, StmtKindModel::RefDecl { name, value })) }}}}}
}

/// Constraints, one per `where`.
pub open spec fn where_rest<G: Grammar>(
    g: G,
    start: Cursor,
    clauses: Seq<ExprModel>,
) -> Parsed<Seq<ExprModel>>
    decreases left(start),
{
    let s = start;
    match peeked(s) { Err(f) => Err(f), Ok(t) =>
    if !(is_word(t, "where"@)) {
        Ok((s, clauses))
    } else {
    match taken(s) { Err(f) => Err(f), Ok((s, _)) =>
    match g.expression(s, Precedence::Lowest) { Err(f) => Err(f), Ok((s, value)) =>
    { let clauses = clauses.push(value);
    if left(s) < left(start) { where_rest(g, s, clauses) } else { stalled(s) } }}}}}
}

/// The trailing constraints of a declaration.
pub open spec fn where_clauses<G: Grammar>(g: G, start: Cursor) -> Parsed<Seq<ExprModel>>
{
    let s = start;
    where_rest(g, s, Seq::empty())
}

/// The arguments of a `comptime assert`, in parentheses or bare.
pub open spec fn assert_args<G: Grammar>(g: G, start: Cursor) -> Parsed<Seq<ExprModel>>
{
    let s = start;
    match peeked(s) { Err(f) => Err(f), Ok(t) =>
    if t == Some(TokenModel::LParen) {
        match taken(s) { Err(f) => Err(f), Ok((s, _)) =>
        match g.call_args(s) { Err(f) => Err(f), Ok((s, call)) =>
        match expected(s, TokenModel::RParen, "Expected ')' after comptime directive"@) {
        Err(f) => Err(f), Ok((s, _)) =>
        Ok((s, call.0)) }}}
    } else {
    match g.expression(s, Precedence::Lowest) { Err(f) => Err(f), Ok((s, value)) =>
    Ok((s, seq![value])) }}}
}

/// The arguments of a `comptime assert` with the message behind them, if any.
pub open spec fn assert_message<G: Grammar>(g: G, start: Cursor) -> Parsed<Seq<ExprModel>>
{
    let s = start;
    match assert_args(g, s) { Err(f) => Err(f), Ok((s, args)) =>
    match peeked(s) { Err(f) => Err(f), Ok(t) =>
    if !(t == Some(TokenModel::Comma)) {
        Ok((s, args))
    } else {
    match taken(s) { Err(f) => Err(f), Ok((s, _)) =>
    match g.expression(s, Precedence::Lowest) { Err(f) => Err(f), Ok((s, message)) =>
    Ok((s, args.push(message))) }}}}}
}

/// The compile-time parameters of a constant, if any.
pub open spec fn constant_params<G: Grammar>(g: G, start: Cursor) -> Parsed<Seq<TypeParamModel>>
{
    let s = start;
    match peeked(s) { Err(f) => Err(f), Ok(t) =>
    if t == Some(TokenModel::LBracket) {
        g.type_params(s)
    } else {
    Ok((s, Seq::empty())) }}
}

/// A compile-time constant, or the `assert` directive.
pub open spec fn comptime_constant<G: Grammar>(g: G, start: Cursor) -> Parsed<StmtKindModel>
{
    let s = start;
    match identifier(s, "Expected a name, 'if', or 'for' after 'comptime'"@) {
    Err(f) => Err(f), Ok((s, name)) =>
    if name == "assert"@ {
        match assert_message(g, s) { Err(f) => Err(f), Ok((s, args)) =>
        match ended(s) { Err(f) => Err(f), Ok((s, _)) =>
        Ok(
            (
                s,
                StmtKindModel::Expr(
                    expr_at(
                        ExprKindModel::Call { name, param_args: Seq::empty(), args, kwargs: Seq::empty() },
                        s.last_span,
                    )
                ),
            )
        ) }}
    } else {
    match constant_params(g, s) { Err(f) => Err(f), Ok((s, type_params)) =>
    match annotation_part(g, s) { Err(f) => Err(f), Ok((s, ty)) =>
    match where_clauses(g, s) { Err(f) => Err(f), Ok((s, where_clauses)) =>
    match expected(s, TokenModel::Assign, "Expected '=' after the comptime constant name (or its ': Type')"@) {
    Err(f) => Err(f), Ok((s, _)) =>
    match g.expression(s, Precedence::Lowest) { Err(f) => Err(f), Ok((s, value)) =>
    match ended(s) { Err(f) => Err(f), Ok((s, _)) =>
    Ok((s, StmtKindModel::Comptime { name, type_params, ty, where_clauses, value })) }}}}}}}}
}

/// The words behind the first of a decorator's name.
pub open spec fn decorator_path(start: Cursor, path: Seq<Seq<char>>) -> Parsed<Seq<Seq<char>>>
    decreases left(start),
{
    let s = start;
    match peeked(s) { Err(f) => Err(f), Ok(t) =>
    if !(t == Some(TokenModel::Dot)) {
        Ok((s, path))
    } else {
    match taken(s) { Err(f) => Err(f), Ok((s, _)) =>
    match identifier(s, "Expected a name after '.' in a decorator"@) { Err(f) => Err(f), Ok((s, word)) =>
    { let path = path.push(word);
    if left(s) < left(start) { decorator_path(s, path) } else { stalled(s) } }}}}}
}

/// The arguments of a decorator, if any.
pub open spec fn decorator_args<G: Grammar>(g: G, start: Cursor) -> Parsed<(Seq<ExprModel>, Seq<KwArgModel>)>
{
    let s = start;
    match peeked(s) { Err(f) => Err(f), Ok(t) =>
    if t == Some(TokenModel::LParen) {
        match taken(s) { Err(f) => Err(f), Ok((s, _)) =>
        match g.call_args(s) { Err(f) => Err(f), Ok((s, call)) =>
        match expected(s, TokenModel::RParen, "Expected ')' after decorator arguments"@) {
        Err(f) => Err(f), Ok((s, _)) =>
        Ok((s, call)) }}}
    } else {
    Ok((s, (Seq::empty(), Seq::empty()))) }}
}

/// Decorators, each on a line of its own.
pub open spec fn decorators_rest<G: Grammar>(
    g: G,
    start: Cursor,
    decorators: Seq<DecoratorModel>,
) -> Parsed<Seq<DecoratorModel>>
    decreases left(start),
{
    let s = start;
    match peeked(s) { Err(f) => Err(f), Ok(t) =>
    if !(t == Some(TokenModel::At)) {
        Ok((s, decorators))
    } else {
    match taken(s) { Err(f) => Err(f), Ok((s, _)) =>
    match identifier(s, "Expected a decorator name after '@'"@) { Err(f) => Err(f), Ok((s, first)) =>
    match decorator_path(s, seq![first]) { Err(f) => Err(f), Ok((s, path)) =>
    match decorator_args(g, s) { Err(f) => Err(f), Ok((s, call)) =>
    match ended(s) { Err(f) => Err(f), Ok((s, _)) =>
    { let decorators = decorators.push(DecoratorModel { path, args: call.0, kwargs: call.1 });
    if left(s) < left(start) { decorators_rest(g, s, decorators) } else { stalled(s) } }}}}}}}}
}

/// The decorators of a declaration.
pub open spec fn decorators<G: Grammar>(g: G, start: Cursor) -> Parsed<Seq<DecoratorModel>>
{
    let s = start;
    decorators_rest(g, s, Seq::empty())
}

/// A capture convention, if one is ahead.
pub open spec fn capture_convention(start: Cursor) -> Parsed<Option<CaptureKind>>
{
    let s = start;
    match peeked(s) { Err(f) => Err(f), Ok(t) =>
    if t == Some(TokenModel::Var) {
        match taken(s) { Err(f) => Err(f), Ok((s, _)) =>
        Ok((s, Some(CaptureKind::Copy))) }
    } else {
    if is_word(t, "imm"@) {
        match taken(s) { Err(f) => Err(f), Ok((s, _)) =>
        Ok((s, Some(CaptureKind::Imm))) }
    } else {
    if is_word(t, "read"@) {
        Err((s, read_removed()))
    } else {
    if is_word(t, "mut"@) {
        match taken(s) { Err(f) => Err(f), Ok((s, _)) =>
        Ok((s, Some(CaptureKind::Mut))) }
    } else {
    if is_word(t, "ref"@) {
        match taken(s) { Err(f) => Err(f), Ok((s, _)) =>
        Ok((s, Some(CaptureKind::Ref))) }
    } else {
    Ok((s, None)) }}}}}}
}

/// A captured name. It may be missing only behind a convention.
pub open spec fn capture_name(start: Cursor, bare: bool) -> Parsed<Option<Seq<char>>>
{
    let s = start;
    match peeked(s) { Err(f) => Err(f), Ok(t) =>
    if names_something(t) {
        match identifier(s, "Expected a captured name"@) { Err(f) => Err(f), Ok((s, name)) =>
        Ok((s, Some(name))) }
    } else {
    if bare {
        match taken(s) { Err(f) => Err(f), Ok((s, token)) =>
        Err((s, unexpected(token, "Expected a capture convention or captured name"@))) }
    } else {
    Ok((s, None)) }}}
}

/// Whether a capture is moved.
pub open spec fn capture_move(start: Cursor) -> Parsed<bool>
{
    let s = start;
    match peeked(s) { Err(f) => Err(f), Ok(t) =>
    if t == Some(TokenModel::Caret) {
        match taken(s) { Err(f) => Err(f), Ok((s, _)) =>
        Ok((s, true)) }
    } else {
    Ok((s, false)) }}
}

/// The comma behind a capture, if it is not the last.
pub open spec fn capture_separator(start: Cursor) -> Parsed<()>
{
    let s = start;
    match peeked(s) { Err(f) => Err(f), Ok(t) =>
    if t == Some(TokenModel::Comma) {
        match taken(s) { Err(f) => Err(f), Ok((s, _)) =>
        Ok((s, ())) }
    } else {
    if !(t == Some(TokenModel::RBrace)) {
        match taken(s) { Err(f) => Err(f), Ok((s, token)) =>
        Err((s, unexpected(token, "Expected ',' or '}' in capture list"@))) }
    } else {
    Ok((s, ())) }}}
}

/// Captures, up to the `}`. A convention without a name is the default of the rest.
pub open spec fn captures_rest(
    start: Cursor,
    entries: Seq<CaptureModel>,
    default: Option<CaptureKind>,
) -> Parsed<Option<CaptureListModel>>
    decreases left(start),
{
    let s = start;
    match peeked(s) { Err(f) => Err(f), Ok(t) =>
    if t == Some(TokenModel::RBrace) {
        match taken(s) { Err(f) => Err(f), Ok((s, _)) =>
        Ok((s, Some(CaptureListModel { entries, default }))) }
    } else {
    match capture_convention(s) { Err(f) => Err(f), Ok((s, convention)) =>
    match capture_name(s, convention is None) { Err(f) => Err(f), Ok((s, word)) =>
    match capture_move(s) { Err(f) => Err(f), Ok((s, moved)) =>
    if moved && !movable(convention) {
        Err((s, unexpected(TokenModel::Caret, "'^' requires the 'var' capture convention"@)))
    } else {
    { let kind = capture_kind(convention, moved);
    match word { Some(name) => {
        if captured(entries, name) {
            Err((s, duplicate(name)))
        } else {
        match capture_separator(s) { Err(f) => Err(f), Ok((s, _)) =>
        { let entries = entries.push(CaptureModel { name, kind });
        if left(s) < left(start) { captures_rest(s, entries, default) } else { stalled(s) } }}}
    }, _ =>
    if default is Some {
        Err(
            (
                s,
                unexpected(
                    TokenModel::Identifier("capture convention"@),
                    "default capture convention was already specified"@,
                ),
            )
        )
    } else {
    match capture_separator(s) { Err(f) => Err(f), Ok((s, _)) =>
    { let default = Some(kind);
    if left(s) < left(start) { captures_rest(s, entries, default) } else { stalled(s) } }}}}}}}}}}}
}

/// A capture list, if a `{` is ahead.
pub open spec fn capture_list(start: Cursor) -> Parsed<Option<CaptureListModel>>
{
    let s = start;
    match peeked(s) { Err(f) => Err(f), Ok(t) =>
    if !(t == Some(TokenModel::LBrace)) {
        Ok((s, None))
    } else {
    match taken(s) { Err(f) => Err(f), Ok((s, _)) =>
    captures_rest(s, Seq::empty(), None) }}}
}

/// The `raises` effect, if it is ahead, and its error type, unless the header goes
/// on or ends.
pub open spec fn raises_effect<G: Grammar>(g: G, start: Cursor) -> Parsed<(bool, Option<TypeModel>)>
{
    let s = start;
    match peeked(s) { Err(f) => Err(f), Ok(t) =>
    if !(t == Some(TokenModel::Raises)) {
        Ok((s, (false, None)))
    } else {
    match taken(s) { Err(f) => Err(f), Ok((s, _)) =>
    match peeked(s) { Err(f) => Err(f), Ok(t) =>
    if is_word(t, "capturing"@)
        || is_word(t, "thin"@)
        || is_word(t, "abi"@)
        || is_word(t, "where"@)
        || t == Some(TokenModel::Arrow)
        || t == Some(TokenModel::Colon)
        || t == Some(TokenModel::LBrace) {
        Ok((s, (true, None)))
    } else {
    match g.annotation(s) { Err(f) => Err(f), Ok((s, ty)) =>
    Ok((s, (true, Some(ty)))) }}}}}}
}

/// The effects of a declaration in any order; only what it raises is kept.
pub open spec fn effects_rest<G: Grammar>(
    g: G,
    start: Cursor,
    raises: bool,
    raises_type: Option<TypeModel>,
) -> Parsed<(bool, Option<TypeModel>)>
    decreases left(start),
{
    let s = start;
    match peeked(s) { Err(f) => Err(f), Ok(t) =>
    if t == Some(TokenModel::Raises) && !raises {
        match raises_effect(g, s) { Err(f) => Err(f), Ok((s, effect)) =>
        { let raises = effect.0;
        { let raises_type = effect.1;
        if left(s) < left(start) { effects_rest(g, s, raises, raises_type) } else { stalled(s) } }}}
    } else {
    if is_word(t, "capturing"@) || is_word(t, "thin"@) || is_word(t, "abi"@) {
        match g.erased_effects(s) { Err(f) => Err(f), Ok((s, _)) =>
        if left(s) < left(start) { effects_rest(g, s, raises, raises_type) } else { stalled(s) } }
    } else {
    Ok((s, (raises, raises_type))) }}}
}

/// The effects of a declaration.
pub open spec fn callable_effects<G: Grammar>(g: G, start: Cursor) -> Parsed<(bool, Option<TypeModel>)>
{
    let s = start;
    effects_rest(g, s, false, None)
}

/// `raise expr`
pub open spec fn raise_stmt<G: Grammar>(g: G, start: Cursor) -> Parsed<StmtKindModel>
{
    let s = start;
    match expected(s, TokenModel::Raise, "Expected 'raise'"@) { Err(f) => Err(f), Ok((s, _)) =>
    match g.expression(s, Precedence::Lowest) { Err(f) => Err(f), Ok((s, value)) =>
    match ended(s) { Err(f) => Err(f), Ok((s, _)) =>
    Ok((s, StmtKindModel::Raise(value))) }}}
}

/// The value of a `return`, if any.
pub open spec fn return_value<G: Grammar>(g: G, start: Cursor) -> Parsed<Option<ExprModel>>
{
    let s = start;
    match peeked(s) { Err(f) => Err(f), Ok(t) =>
    if t == Some(TokenModel::Newline) || t == Some(TokenModel::Eof) || t is None {
        Ok((s, None))
    } else {
    match tuple_display(g, s) { Err(f) => Err(f), Ok((s, value)) =>
    Ok((s, Some(value))) }}}
}

/// `return` or `return expr`
pub open spec fn return_stmt<G: Grammar>(g: G, start: Cursor) -> Parsed<StmtKindModel>
{
    let s = start;
    match expected(s, TokenModel::Return, "Expected 'return'"@) { Err(f) => Err(f), Ok((s, _)) =>
    match return_value(g, s) { Err(f) => Err(f), Ok((s, value)) =>
    match ended(s) { Err(f) => Err(f), Ok((s, _)) =>
    Ok((s, StmtKindModel::Return(value))) }}}
}

/// How a loop binds its variable.
pub open spec fn loop_binding_mode(start: Cursor) -> Parsed<LoopBindingMode>
{
    let s = start;
    match peeked(s) { Err(f) => Err(f), Ok(t) =>
    if is_word(t, "ref"@) {
        match taken(s) { Err(f) => Err(f), Ok((s, _)) =>
        Ok((s, LoopBindingMode::Ref)) }
    } else {
    if t == Some(TokenModel::Var) {
        match taken(s) { Err(f) => Err(f), Ok((s, _)) =>
        Ok((s, LoopBindingMode::Var)) }
    } else {
    Ok((s, LoopBindingMode::Immutable)) }}}
}

/// The result type of a function, if it has one.
pub open spec fn result_type<G: Grammar>(g: G, start: Cursor) -> Parsed<Option<TypeModel>>
{
    let s = start;
    match peeked(s) { Err(f) => Err(f), Ok(t) =>
    if !(t == Some(TokenModel::Arrow)) {
        Ok((s, None))
    } else {
    match taken(s) { Err(f) => Err(f), Ok((s, _)) =>
    match g.annotation(s) { Err(f) => Err(f), Ok((s, ty)) =>
    Ok((s, Some(ty))) }}}}
}

/// Everything up to a `}` or the end of the input.
pub open spec fn to_brace(start: Cursor) -> Parsed<()>
    decreases left(start),
{
    let s = start;
    match peeked(s) { Err(f) => Err(f), Ok(t) =>
    if t == Some(TokenModel::RBrace) || t is None {
        Ok((s, ()))
    } else {
    match taken(s) { Err(f) => Err(f), Ok((s, _)) =>
    if left(s) < left(start) { to_brace(s) } else { stalled(s) } }}}
}

/// A braced part behind the result type, which leaves no trace.
pub open spec fn trailing_effects(start: Cursor) -> Parsed<()>
{
    let s = start;
    match peeked(s) { Err(f) => Err(f), Ok(t) =>
    if !(t == Some(TokenModel::LBrace)) {
        Ok((s, ()))
    } else {
    match taken(s) { Err(f) => Err(f), Ok((s, _)) =>
    match to_brace(s) { Err(f) => Err(f), Ok((s, _)) =>
    expected(s, TokenModel::RBrace, "Expected '}' after function effects"@) }}}}
}

/// A statement of one word.
pub open spec fn word_stmt(start: Cursor, kind: StmtKindModel) -> Parsed<StmtKindModel>
{
    let s = start;
    match taken(s) { Err(f) => Err(f), Ok((s, _)) =>
    match ended(s) { Err(f) => Err(f), Ok((s, _)) =>
    Ok((s, kind)) }}
}

/// The name behind `as` in a `with` item, if any.
pub open spec fn with_name(start: Cursor) -> Parsed<Option<Seq<char>>>
{
    let s = start;
    match peeked(s) { Err(f) => Err(f), Ok(t) =>
    if !(t == Some(TokenModel::As)) {
        Ok((s, None))
    } else {
    match taken(s) { Err(f) => Err(f), Ok((s, _)) =>
    match identifier(s, "Expected a name after 'as' in a 'with' item"@) { Err(f) => Err(f), Ok((s, name)) =>
    Ok((s, Some(name))) }}}}
}

/// The managers of a `with` statement.
pub open spec fn with_items<G: Grammar>(
    g: G,
    start: Cursor,
    items: Seq<WithItemModel>,
) -> Parsed<Seq<WithItemModel>>
    decreases left(start),
{
    let s = start;
    match g.expression(s, Precedence::Lowest) { Err(f) => Err(f), Ok((s, context)) =>
    match with_name(s) { Err(f) => Err(f), Ok((s, var)) =>
    { let items = items.push(WithItemModel { context, var });
    match peeked(s) { Err(f) => Err(f), Ok(t) =>
    if !(t == Some(TokenModel::Comma)) {
        Ok((s, items))
    } else {
    match taken(s) { Err(f) => Err(f), Ok((s, _)) =>
    if left(s) < left(start) { with_items(g, s, items) } else { stalled(s) } }}}}}}
}

/// The name that a handler binds, if any.
pub open spec fn handler_name(start: Cursor) -> Parsed<Option<Seq<char>>>
{
    let s = start;
    match peeked(s) { Err(f) => Err(f), Ok(t) =>
    if names_something(t) {
        match identifier(s, "Expected a name"@) { Err(f) => Err(f), Ok((s, name)) =>
        Ok((s, Some(name))) }
    } else {
    Ok((s, None)) }}
}

/// The loop variable and what it runs over, from the keyword to the `:`.
pub open spec fn loop_head<G: Grammar>(g: G, start: Cursor) -> Parsed<(Seq<char>, LoopBindingMode, ExprModel)>
{
    let s = start;
    match expected(s, TokenModel::For, "Expected 'for'"@) { Err(f) => Err(f), Ok((s, _)) =>
    match loop_binding_mode(s) { Err(f) => Err(f), Ok((s, binding)) =>
    match identifier(s, "Expected a loop variable name after 'for'"@) { Err(f) => Err(f), Ok((s, var)) =>
    match expected(s, TokenModel::In, "Expected 'in' after the loop variable"@) {
    Err(f) => Err(f), Ok((s, _)) =>
    match g.expression(s, Precedence::Lowest) { Err(f) => Err(f), Ok((s, iter)) =>
    match expected(s, TokenModel::Colon, "Expected ':' after the for-loop iterable"@) {
    Err(f) => Err(f), Ok((s, _)) =>
    Ok((s, (var, binding, iter))) }}}}}}
}

impl Parser {
    /// The words behind the first of a dotted name.
    #[verifier::loop_isolation(false)]
    pub fn parse_dotted_rest(&mut self, segments: Vec<String>) -> (r: Result<Vec<String>, ParseError>)
        ensures
            told_words(r, final(self)@) == dotted_rest(old(self)@, strings_view(segments)),
            left(final(self)@) <= left(old(self)@),
    {
        let ghost segments_0 = strings_view(segments);
        let mut segments = segments;
        loop
            invariant
                dotted_rest(self@, strings_view(segments)) == dotted_rest(old(self)@, segments_0),
                left(self@) <= left(old(self)@),
            decreases left(self@),
        {
            let t: Option<Token> = self.peek_token()?;
            if !(token_is(&t, &Token::Dot)) {
                return Ok(segments);
            }
            self.next_token()?;
            let word = self.expect_identifier("Expected a name after '.'")?;
            let ghost before = strings_view(segments);
            segments.push(word);
            assert(strings_view(segments) =~= before.push(strings_view(segments).last()));
        }
    }

    /// A dotted module name.
    pub fn parse_dotted_name(&mut self) -> (r: Result<Vec<String>, ParseError>)
        ensures
            told_words(r, final(self)@) == dotted_name(old(self)@),
            left(final(self)@) <= left(old(self)@),
            r is Ok ==> left(final(self)@) < left(old(self)@),
    {
        let first = self.expect_identifier("Expected a module name")?;
        self.parse_dotted_rest(one_word(first))
    }

    /// An optional `as NAME`.
    pub fn parse_import_alias(&mut self) -> (r: Result<Option<String>, ParseError>)
        ensures
            told_opt_word(r, final(self)@) == import_alias(old(self)@),
            left(final(self)@) <= left(old(self)@),
    {
        let t: Option<Token> = self.peek_token()?;
        if !(token_is(&t, &Token::As)) {
            return Ok(None);
        }
        self.next_token()?;
        let name = self.expect_identifier("Expected an alias name after 'as'")?;
        Ok(Some(name))
    }

    /// `import a.b.c [as alias]`
    pub fn parse_import(&mut self) -> (r: Result<StmtKind, ParseError>)
        ensures
            told_kind(r, final(self)@) == import_stmt(old(self)@),
            left(final(self)@) <= left(old(self)@),
            r is Ok ==> left(final(self)@) < left(old(self)@),
    {
        self.expect(Token::Import, "Expected 'import'")?;
        let path = self.parse_dotted_name()?;
        let alias = self.parse_import_alias()?;
        self.expect_stmt_end()?;
        Ok(StmtKind::Import { path, alias })
    }

    /// The dots that make an import relative; an ellipsis counts as three.
    #[verifier::loop_isolation(false)]
    pub fn parse_import_level(&mut self, level: usize) -> (r: Result<usize, ParseError>)
        ensures
            told_level(r, final(self)@) == import_level(old(self)@, level),
            left(final(self)@) <= left(old(self)@),
    {
        let ghost level_0 = level;
        let mut level = level;
        loop
            invariant
                import_level(self@, level) == import_level(old(self)@, level_0),
                left(self@) <= left(old(self)@),
            decreases left(self@),
        {
            let t: Option<Token> = self.peek_token()?;
            if token_is(&t, &Token::Dot) {
                self.next_token()?;
                level = add_dots(level, 1);
                continue;
            }
            if token_is(&t, &Token::Ellipsis) {
                self.next_token()?;
                level = add_dots(level, 3);
                continue;
            }
            return Ok(level);
        }
    }

    /// The path of an import, empty where it has none.
    pub fn parse_import_path(&mut self) -> (r: Result<Vec<String>, ParseError>)
        ensures
            told_words(r, final(self)@) == import_path(old(self)@),
            left(final(self)@) <= left(old(self)@),
    {
        let t: Option<Token> = self.peek_token()?;
        if is_name(&t) {
            return self.parse_dotted_name();
        }
        Ok(no_words())
    }

    /// Whether a list in parentheses ends here.
    pub fn parse_names_end(&mut self, parenthesized: bool) -> (r: Result<bool, ParseError>)
        ensures
            told_flag(r, final(self)@) == names_end(old(self)@, parenthesized),
            left(final(self)@) <= left(old(self)@),
    {
        if !parenthesized {
            return Ok(false);
        }
        let t: Option<Token> = self.peek_token()?;
        Ok(token_is(&t, &Token::RParen))
    }

    /// The names of a `from` import, up to the `)` where they stand in parentheses.
    #[verifier::loop_isolation(false)]
    pub fn parse_imported_names(
        &mut self,
        parenthesized: bool,
        targets: Vec<ImportName>,
    ) -> (r: Result<Vec<ImportName>, ParseError>)
        ensures
            told_imports(r, final(self)@) == imported_names(
                old(self)@,
                parenthesized,
                imported_names_view(targets),
            ),
            left(final(self)@) <= left(old(self)@),
    {
        let ghost parenthesized_0 = parenthesized;
        let ghost targets_0 = imported_names_view(targets);
        let mut targets = targets;
        loop
            invariant
                imported_names(
                    self@,
                    parenthesized,
                    imported_names_view(targets),
                ) == imported_names(old(self)@, parenthesized_0, targets_0),
                left(self@) <= left(old(self)@),
            decreases left(self@),
        {
            let done = self.parse_names_end(parenthesized)?;
            if done {
                return Ok(targets);
            }
            let name = self.expect_identifier("Expected an imported name")?;
            let alias = self.parse_import_alias()?;
            let ghost before = imported_names_view(targets);
            targets.push(ImportName { name, alias });
            assert(imported_names_view(targets) =~= before.push(imported_names_view(targets).last()));
            let t: Option<Token> = self.peek_token()?;
            if !(token_is(&t, &Token::Comma)) {
                return Ok(targets);
            }
            self.next_token()?;
        }
    }

    /// What a `from` import brings: everything, or names.
    pub fn parse_import_targets(&mut self, parenthesized: bool) -> (r: Result<ImportNames, ParseError>)
        ensures
            told_names(r, final(self)@) == import_targets(old(self)@, parenthesized),
            left(final(self)@) <= left(old(self)@),
    {
        let t: Option<Token> = self.peek_token()?;
        if token_is(&t, &Token::Star) {
            self.next_token()?;
            return Ok(ImportNames::Wildcard);
        }
        let names = self.parse_imported_names(parenthesized, no_imports())?;
        Ok(ImportNames::Names(names))
    }

    /// The `)` behind imported names, where they stand in parentheses.
    pub fn parse_import_close(&mut self, parenthesized: bool) -> (r: Result<(), ParseError>)
        ensures
            told_unit(r, final(self)@) == import_close(old(self)@, parenthesized),
            left(final(self)@) <= left(old(self)@),
    {
        if parenthesized {
            return self.expect(Token::RParen, "Expected ')' after imported names");
        }
        Ok(())
    }

    /// The `(` ahead of imported names, if any.
    pub fn parse_import_open(&mut self) -> (r: Result<bool, ParseError>)
        ensures
            told_flag(r, final(self)@) == import_open(old(self)@),
            left(final(self)@) <= left(old(self)@),
    {
        let t: Option<Token> = self.peek_token()?;
        if token_is(&t, &Token::LParen) {
            self.next_token()?;
            return Ok(true);
        }
        Ok(false)
    }

    /// `from [.]*module import <targets>`
    pub fn parse_from_import(&mut self) -> (r: Result<StmtKind, ParseError>)
        ensures
            told_kind(r, final(self)@) == from_import(old(self)@),
            left(final(self)@) <= left(old(self)@),
            r is Ok ==> left(final(self)@) < left(old(self)@),
    {
        self.expect(Token::From, "Expected 'from'")?;
        let level = self.parse_import_level(0)?;
        let path = self.parse_import_path()?;
        if level == 0 && path.len() == 0 {
            return Err(reject(Token::From, "expected a module name after 'from'"));
        }
        self.expect(Token::Import, "Expected 'import' after the module name")?;
        let parenthesized = self.parse_import_open()?;
        let names = self.parse_import_targets(parenthesized)?;
        self.parse_import_close(parenthesized)?;
        self.expect_stmt_end()?;
        Ok(StmtKind::FromImport { level, path, names })
    }

    /// The elements of a tuple behind the first, each after a comma; a comma may end
    /// them.
    #[verifier::loop_isolation(false)]
    pub fn parse_elements_rest<G: Grammar>(
        &mut self,
        g: &G,
        elements: Vec<Expr>,
    ) -> (r: Result<Vec<Expr>, ParseError>)
        ensures
            told_exprs(r, final(self)@) == elements_rest(*g, old(self)@, exprs_view(elements)),
            left(final(self)@) <= left(old(self)@),
    {
        let ghost elements_0 = exprs_view(elements);
        let mut elements = elements;
        loop
            invariant
                elements_rest(*g, self@, exprs_view(elements)) == elements_rest(*g, old(self)@, elements_0),
                left(self@) <= left(old(self)@),
            decreases left(self@),
        {
            let t: Option<Token> = self.peek_token()?;
            if !(token_is(&t, &Token::Comma)) {
                return Ok(elements);
            }
            self.next_token()?;
            let t: Option<Token> = self.peek_token()?;
            if token_is(&t, &Token::Newline)
                || token_is(&t, &Token::Semicolon)
                || token_is(&t, &Token::Eof)
                || t.is_none() {
                return Ok(elements);
            }
            let value = g.parse_expression(self, Precedence::Lowest)?;
            let ghost before = exprs_view(elements);
            elements.push(value);
            assert(exprs_view(elements) =~= before.push(exprs_view(elements).last()));
        }
    }

    /// An expression where a comma makes a tuple without parentheses.
    pub fn parse_tuple_display<G: Grammar>(&mut self, g: &G) -> (r: Result<Expr, ParseError>)
        ensures
            told_expr(r, final(self)@) == tuple_display(*g, old(self)@),
            left(final(self)@) <= left(old(self)@),
            r is Ok ==> left(final(self)@) < left(old(self)@),
    {
        let first = g.parse_expression(self, Precedence::Lowest)?;
        let t: Option<Token> = self.peek_token()?;
        if !(token_is(&t, &Token::Comma)) {
            return Ok(first);
        }
        let from: usize = first.span.0;
        let elements = self.parse_elements_rest(g, one_expr(first))?;
        Ok(self.node(ExprKind::TupleLit(elements), from))
    }

    /// The targets of an unpacking behind the first. A comma may stand before the `=`.
    #[verifier::loop_isolation(false)]
    pub fn parse_targets_rest<G: Grammar>(
        &mut self,
        g: &G,
        targets: Vec<Expr>,
    ) -> (r: Result<Vec<Expr>, ParseError>)
        ensures
            told_exprs(r, final(self)@) == targets_rest(*g, old(self)@, exprs_view(targets)),
            left(final(self)@) <= left(old(self)@),
    {
        let ghost targets_0 = exprs_view(targets);
        let mut targets = targets;
        loop
            invariant
                targets_rest(*g, self@, exprs_view(targets)) == targets_rest(*g, old(self)@, targets_0),
                left(self@) <= left(old(self)@),
            decreases left(self@),
        {
            let t: Option<Token> = self.peek_token()?;
            if !(token_is(&t, &Token::Comma)) {
                return Ok(targets);
            }
            self.next_token()?;
            let t: Option<Token> = self.peek_token()?;
            if token_is(&t, &Token::Assign)
                || token_is(&t, &Token::Newline)
                || token_is(&t, &Token::Semicolon)
                || token_is(&t, &Token::Eof)
                || t.is_none() {
                return Ok(targets);
            }
            let value = g.parse_expression(self, Precedence::Lowest)?;
            let ghost before = exprs_view(targets);
            targets.push(value);
            assert(exprs_view(targets) =~= before.push(exprs_view(targets).last()));
        }
    }

    /// A statement that starts with a list of expressions: an unpacking, or a tuple.
    pub fn parse_unpacking<G: Grammar>(
        &mut self,
        g: &G,
        targets: Vec<Expr>,
        from: usize,
    ) -> (r: Result<StmtKind, ParseError>)
        ensures
            told_kind(r, final(self)@) == unpacking(*g, old(self)@, exprs_view(targets), from),
            left(final(self)@) <= left(old(self)@),
    {
        let t: Option<Token> = self.peek_token()?;
        if !(token_is(&t, &Token::Assign)) {
            let display = self.node(ExprKind::TupleLit(targets), from);
            self.expect_stmt_end()?;
            return Ok(StmtKind::Expr(display));
        }
        if let Some(target) = find_bad_target(&targets) {
            return Err(reject(Token::Comma, &cat2("invalid unpacking target: ", &target)));
        }
        self.expect(Token::Assign, "Expected '=' after the unpacking target list")?;
        let value = self.parse_tuple_display(g)?;
        self.expect_stmt_end()?;
        Ok(StmtKind::Unpack { targets, value, declares: false })
    }

    /// What follows the `=` of an assignment.
    pub fn parse_assigned<G: Grammar>(&mut self, g: &G, target: Expr) -> (r: Result<StmtKind, ParseError>)
        ensures
            told_kind(r, final(self)@) == assigned(*g, old(self)@, target@),
            left(final(self)@) <= left(old(self)@),
    {
        let value = self.parse_tuple_display(g)?;
        let form = debug_expr_kind(&target.kind);
        if let Some(stmt) = make_assignment(target, value) {
            self.expect_stmt_end()?;
            return Ok(stmt);
        }
        Err(reject(Token::Assign, &cat2("invalid assignment target: ", &form)))
    }

    /// What follows the operator of an augmented assignment.
    pub fn parse_augmented<G: Grammar>(
        &mut self,
        g: &G,
        target: Expr,
        op: InfixOp,
    ) -> (r: Result<StmtKind, ParseError>)
        ensures
            told_kind(r, final(self)@) == augmented_assignment(*g, old(self)@, target@, op),
            left(final(self)@) <= left(old(self)@),
    {
        if !place_like(&target.kind) {
            return Err(
                reject(
                    Token::Assign,
                    &cat2("invalid augmented-assignment target: ", &debug_expr_kind(&target.kind)),
                )
            );
        }
        let value = g.parse_expression(self, Precedence::Lowest)?;
        self.expect_stmt_end()?;
        Ok(StmtKind::AugAssign { place: target, op, value })
    }

    /// An expression statement, an assignment to a variable or a place, an augmented
    /// assignment, or an unpacking. They share a leading expression.
    pub fn parse_expr_or_assign<G: Grammar>(&mut self, g: &G) -> (r: Result<StmtKind, ParseError>)
        ensures
            told_kind(r, final(self)@) == expr_or_assign(*g, old(self)@),
            left(final(self)@) <= left(old(self)@),
            r is Ok ==> left(final(self)@) < left(old(self)@),
    {
        let target = g.parse_expression(self, Precedence::Lowest)?;
        let t: Option<Token> = self.peek_token()?;
        if token_is(&t, &Token::Comma) {
            let from: usize = target.span.0;
            let targets = self.parse_targets_rest(g, one_expr(target))?;
            return self.parse_unpacking(g, targets, from);
        }
        if token_is(&t, &Token::Assign) {
            self.next_token()?;
            return self.parse_assigned(g, target);
        }
        if let Some(op) = augmented_ahead(&t) {
            self.next_token()?;
            return self.parse_augmented(g, target, op);
        }
        self.expect_stmt_end()?;
        Ok(StmtKind::Expr(target))
    }

    /// The names of an unpacking declaration behind the first.
    #[verifier::loop_isolation(false)]
    pub fn parse_names_rest(&mut self, targets: Vec<Expr>) -> (r: Result<Vec<Expr>, ParseError>)
        ensures
            told_exprs(r, final(self)@) == names_rest(old(self)@, exprs_view(targets)),
            left(final(self)@) <= left(old(self)@),
    {
        let ghost targets_0 = exprs_view(targets);
        let mut targets = targets;
        loop
            invariant
                names_rest(self@, exprs_view(targets)) == names_rest(old(self)@, targets_0),
                left(self@) <= left(old(self)@),
            decreases left(self@),
        {
            let t: Option<Token> = self.peek_token()?;
            if !(token_is(&t, &Token::Comma)) {
                return Ok(targets);
            }
            self.next_token()?;
            let name = self.expect_identifier("Expected another variable name")?;
            let ghost before = exprs_view(targets);
            targets.push(Expr::new(ExprKind::Identifier(name), self.last_span));
            assert(exprs_view(targets) =~= before.push(exprs_view(targets).last()));
        }
    }

    /// An optional `: Type`.
    pub fn parse_annotation<G: Grammar>(&mut self, g: &G) -> (r: Result<Option<Type>, ParseError>)
        ensures
            told_opt_type(r, final(self)@) == annotation_part(*g, old(self)@),
            left(final(self)@) <= left(old(self)@),
    {
        let t: Option<Token> = self.peek_token()?;
        if !(token_is(&t, &Token::Colon)) {
            return Ok(None);
        }
        self.next_token()?;
        let ty = g.parse_type(self)?;
        Ok(Some(ty))
    }

    /// An optional `= value`.
    pub fn parse_initializer<G: Grammar>(&mut self, g: &G) -> (r: Result<Expr, ParseError>)
        ensures
            told_expr(r, final(self)@) == initializer(*g, old(self)@),
            left(final(self)@) <= left(old(self)@),
    {
        let t: Option<Token> = self.peek_token()?;
        if token_is(&t, &Token::Assign) {
            self.next_token()?;
            return self.parse_tuple_display(g);
        }
        Ok(Expr::new(ExprKind::Uninitialized, self.last_span))
    }

    /// `var name[: Type] [= value]`, or `var a, b = value`.
    pub fn parse_var_decl<G: Grammar>(&mut self, g: &G) -> (r: Result<StmtKind, ParseError>)
        ensures
            told_kind(r, final(self)@) == var_decl(*g, old(self)@),
            left(final(self)@) <= left(old(self)@),
            r is Ok ==> left(final(self)@) < left(old(self)@),
    {
        self.expect(Token::Var, "Statements must begin with a keyword")?;
        let name = self.expect_identifier("Expected identifier after 'var'")?;
        let t: Option<Token> = self.peek_token()?;
        if token_is(&t, &Token::Comma) {
            let targets = self.parse_names_rest(
                one_expr(Expr::new(ExprKind::Identifier(name), self.last_span))
            )?;
            self.expect(Token::Assign, "Expected '=' after variable unpacking targets")?;
            let value = self.parse_tuple_display(g)?;
            self.expect_stmt_end()?;
            return Ok(StmtKind::Unpack { targets, value, declares: true });
        }
        let ty = self.parse_annotation(g)?;
        let value = self.parse_initializer(g)?;
        self.expect_stmt_end()?;
        Ok(StmtKind::VarDecl { name, ty, value })
    }

    /// `ref name = expression`
    pub fn parse_ref_decl<G: Grammar>(&mut self, g: &G) -> (r: Result<StmtKind, ParseError>)
        ensures
            told_kind(r, final(self)@) == ref_decl(*g, old(self)@),
            left(final(self)@) <= left(old(self)@),
            r is Ok ==> left(final(self)@) < left(old(self)@),
    {
        self.expect_identifier("Expected 'ref'")?;
        let name = self.expect_identifier("Expected a name after 'ref'")?;
        self.expect(Token::Assign, "Expected '=' after the reference name")?;
        let value = g.parse_expression(self, Precedence::Lowest)?;
        self.expect_stmt_end()?;
        Ok(StmtKind::RefDecl { name, value })
    }

    /// Constraints, one per `where`.
    #[verifier::loop_isolation(false)]
    pub fn parse_where_rest<G: Grammar>(
        &mut self,
        g: &G,
        clauses: Vec<Expr>,
    ) -> (r: Result<Vec<Expr>, ParseError>)
        ensures
            told_exprs(r, final(self)@) == where_rest(*g, old(self)@, exprs_view(clauses)),
            left(final(self)@) <= left(old(self)@),
    {
        let ghost clauses_0 = exprs_view(clauses);
        let mut clauses = clauses;
        loop
            invariant
                where_rest(*g, self@, exprs_view(clauses)) == where_rest(*g, old(self)@, clauses_0),
                left(self@) <= left(old(self)@),
            decreases left(self@),
        {
            let t: Option<Token> = self.peek_token()?;
            if !(word_is(&t, "where")) {
                return Ok(clauses);
            }
            self.next_token()?;
            let value = g.parse_expression(self, Precedence::Lowest)?;
            let ghost before = exprs_view(clauses);
            clauses.push(value);
            assert(exprs_view(clauses) =~= before.push(exprs_view(clauses).last()));
        }
    }

    /// The trailing constraints of a declaration.
    pub fn parse_where_clauses<G: Grammar>(&mut self, g: &G) -> (r: Result<Vec<Expr>, ParseError>)
        ensures
            told_exprs(r, final(self)@) == where_clauses(*g, old(self)@),
            left(final(self)@) <= left(old(self)@),
    {
        self.parse_where_rest(g, no_exprs())
    }

    /// The arguments of a `comptime assert`, in parentheses or bare.
    pub fn parse_assert_args<G: Grammar>(&mut self, g: &G) -> (r: Result<Vec<Expr>, ParseError>)
        ensures
            told_exprs(r, final(self)@) == assert_args(*g, old(self)@),
            left(final(self)@) <= left(old(self)@),
    {
        let t: Option<Token> = self.peek_token()?;
        if token_is(&t, &Token::LParen) {
            self.next_token()?;
            let call = g.parse_call_args(self)?;
            self.expect(Token::RParen, "Expected ')' after comptime directive")?;
            return Ok(call.0);
        }
        let value = g.parse_expression(self, Precedence::Lowest)?;
        Ok(one_expr(value))
    }

    /// The arguments of a `comptime assert` with the message behind them, if any.
    pub fn parse_assert_message<G: Grammar>(&mut self, g: &G) -> (r: Result<Vec<Expr>, ParseError>)
        ensures
            told_exprs(r, final(self)@) == assert_message(*g, old(self)@),
            left(final(self)@) <= left(old(self)@),
    {
        let args = self.parse_assert_args(g)?;
        let t: Option<Token> = self.peek_token()?;
        if !(token_is(&t, &Token::Comma)) {
            return Ok(args);
        }
        self.next_token()?;
        let message = g.parse_expression(self, Precedence::Lowest)?;
        Ok(with_expr(args, message))
    }

    /// The compile-time parameters of a constant, if any.
    pub fn parse_constant_params<G: Grammar>(&mut self, g: &G) -> (r: Result<Vec<TypeParam>, ParseError>)
        ensures
            told_type_params(r, final(self)@) == constant_params(*g, old(self)@),
            left(final(self)@) <= left(old(self)@),
    {
        let t: Option<Token> = self.peek_token()?;
        if token_is(&t, &Token::LBracket) {
            return g.parse_type_params(self);
        }
        Ok(no_type_params())
    }

    /// A compile-time constant, or the `assert` directive.
    pub fn parse_comptime_constant<G: Grammar>(&mut self, g: &G) -> (r: Result<StmtKind, ParseError>)
        ensures
            told_kind(r, final(self)@) == comptime_constant(*g, old(self)@),
            left(final(self)@) <= left(old(self)@),
            r is Ok ==> left(final(self)@) < left(old(self)@),
    {
        let name = self.expect_identifier("Expected a name, 'if', or 'for' after 'comptime'")?;
        if str_eq(&name, "assert") {
            let args = self.parse_assert_message(g)?;
            self.expect_stmt_end()?;
            return Ok(
                StmtKind::Expr(
                    Expr::new(
                        ExprKind::Call { name, param_args: no_source_args(), args, kwargs: no_kw_args() },
                        self.last_span,
                    )
                )
            );
        }
        let type_params = self.parse_constant_params(g)?;
        let ty = self.parse_annotation(g)?;
        let where_clauses = self.parse_where_clauses(g)?;
        self.expect(Token::Assign, "Expected '=' after the comptime constant name (or its ': Type')")?;
        let value = g.parse_expression(self, Precedence::Lowest)?;
        self.expect_stmt_end()?;
        Ok(StmtKind::Comptime { name, type_params, ty, where_clauses, value })
    }

    /// The words behind the first of a decorator's name.
    #[verifier::loop_isolation(false)]
    pub fn parse_decorator_path(&mut self, path: Vec<String>) -> (r: Result<Vec<String>, ParseError>)
        ensures
            told_words(r, final(self)@) == decorator_path(old(self)@, strings_view(path)),
            left(final(self)@) <= left(old(self)@),
    {
        let ghost path_0 = strings_view(path);
        let mut path = path;
        loop
            invariant
                decorator_path(self@, strings_view(path)) == decorator_path(old(self)@, path_0),
                left(self@) <= left(old(self)@),
            decreases left(self@),
        {
            let t: Option<Token> = self.peek_token()?;
            if !(token_is(&t, &Token::Dot)) {
                return Ok(path);
            }
            self.next_token()?;
            let word = self.expect_identifier("Expected a name after '.' in a decorator")?;
            let ghost before = strings_view(path);
            path.push(word);
            assert(strings_view(path) =~= before.push(strings_view(path).last()));
        }
    }

    /// The arguments of a decorator, if any.
    pub fn parse_decorator_args<G: Grammar>(&mut self, g: &G) -> (r: Result<CallArgs, ParseError>)
        ensures
            told_args(r, final(self)@) == decorator_args(*g, old(self)@),
            left(final(self)@) <= left(old(self)@),
    {
        let t: Option<Token> = self.peek_token()?;
        if token_is(&t, &Token::LParen) {
            self.next_token()?;
            let call = g.parse_call_args(self)?;
            self.expect(Token::RParen, "Expected ')' after decorator arguments")?;
            return Ok(call);
        }
        Ok((no_exprs(), no_kw_args()))
    }

    /// Decorators, each on a line of its own.
    #[verifier::loop_isolation(false)]
    pub fn parse_decorators_rest<G: Grammar>(
        &mut self,
        g: &G,
        decorators: Vec<Decorator>,
    ) -> (r: Result<Vec<Decorator>, ParseError>)
        ensures
            told_decorators(r, final(self)@) == decorators_rest(*g, old(self)@, decorators_view(decorators)),
            left(final(self)@) <= left(old(self)@),
    {
        let ghost decorators_0 = decorators_view(decorators);
        let mut decorators = decorators;
        loop
            invariant
                decorators_rest(
                    *g,
                    self@,
                    decorators_view(decorators),
                ) == decorators_rest(*g, old(self)@, decorators_0),
                left(self@) <= left(old(self)@),
            decreases left(self@),
        {
            let t: Option<Token> = self.peek_token()?;
            if !(token_is(&t, &Token::At)) {
                return Ok(decorators);
            }
            self.next_token()?;
            let first = self.expect_identifier("Expected a decorator name after '@'")?;
            let path = self.parse_decorator_path(one_word(first))?;
            let call = self.parse_decorator_args(g)?;
            self.expect_stmt_end()?;
            let ghost before = decorators_view(decorators);
            decorators.push(Decorator { path, args: call.0, kwargs: call.1 });
            assert(decorators_view(decorators) =~= before.push(decorators_view(decorators).last()));
        }
    }

    /// The decorators of a declaration.
    pub fn parse_decorators<G: Grammar>(&mut self, g: &G) -> (r: Result<Vec<Decorator>, ParseError>)
        ensures
            told_decorators(r, final(self)@) == decorators(*g, old(self)@),
            left(final(self)@) <= left(old(self)@),
    {
        self.parse_decorators_rest(g, no_decorators())
    }

    /// A capture convention, if one is ahead.
    pub fn parse_capture_convention(&mut self) -> (r: Result<Option<CaptureKind>, ParseError>)
        ensures
            told_capture_kind(r, final(self)@) == capture_convention(old(self)@),
            left(final(self)@) <= left(old(self)@),
    {
        let t: Option<Token> = self.peek_token()?;
        if token_is(&t, &Token::Var) {
            self.next_token()?;
            return Ok(Some(CaptureKind::Copy));
        }
        if word_is(&t, "imm") {
            self.next_token()?;
            return Ok(Some(CaptureKind::Imm));
        }
        if word_is(&t, "read") {
            return Err(reject(Token::Identifier("read".to_owned()), "'read' was removed; use 'imm'"));
        }
        if word_is(&t, "mut") {
            self.next_token()?;
            return Ok(Some(CaptureKind::Mut));
        }
        if word_is(&t, "ref") {
            self.next_token()?;
            return Ok(Some(CaptureKind::Ref));
        }
        Ok(None)
    }

    /// A captured name. It may be missing only behind a convention.
    pub fn parse_capture_name(&mut self, bare: bool) -> (r: Result<Option<String>, ParseError>)
        ensures
            told_opt_word(r, final(self)@) == capture_name(old(self)@, bare),
            left(final(self)@) <= left(old(self)@),
    {
        let t: Option<Token> = self.peek_token()?;
        if is_name(&t) {
            let name = self.expect_identifier("Expected a captured name")?;
            return Ok(Some(name));
        }
        if bare {
            let token = self.next_token()?;
            return Err(reject(token, "Expected a capture convention or captured name"));
        }
        Ok(None)
    }

    /// Whether a capture is moved.
    pub fn parse_capture_move(&mut self) -> (r: Result<bool, ParseError>)
        ensures
            told_flag(r, final(self)@) == capture_move(old(self)@),
            left(final(self)@) <= left(old(self)@),
    {
        let t: Option<Token> = self.peek_token()?;
        if token_is(&t, &Token::Caret) {
            self.next_token()?;
            return Ok(true);
        }
        Ok(false)
    }

    /// The comma behind a capture, if it is not the last.
    pub fn parse_capture_separator(&mut self) -> (r: Result<(), ParseError>)
        ensures
            told_unit(r, final(self)@) == capture_separator(old(self)@),
            left(final(self)@) <= left(old(self)@),
    {
        let t: Option<Token> = self.peek_token()?;
        if token_is(&t, &Token::Comma) {
            self.next_token()?;
            return Ok(());
        }
        if !(token_is(&t, &Token::RBrace)) {
            let token = self.next_token()?;
            return Err(reject(token, "Expected ',' or '}' in capture list"));
        }
        Ok(())
    }

    /// Captures, up to the `}`. A convention without a name is the default of the rest.
    #[verifier::loop_isolation(false)]
    pub fn parse_captures_rest(
        &mut self,
        entries: Vec<Capture>,
        default: Option<CaptureKind>,
    ) -> (r: Result<Option<CaptureList>, ParseError>)
        ensures
            told_captures(r, final(self)@) == captures_rest(
                old(self)@,
                source_captures_view(entries),
                default,
            ),
            left(final(self)@) <= left(old(self)@),
    {
        let ghost entries_0 = source_captures_view(entries);
        let ghost default_0 = default;
        let mut entries = entries;
        let mut default = default;
        loop
            invariant
                captures_rest(
                    self@,
                    source_captures_view(entries),
                    default,
                ) == captures_rest(old(self)@, entries_0, default_0),
                left(self@) <= left(old(self)@),
            decreases left(self@),
        {
            let t: Option<Token> = self.peek_token()?;
            if token_is(&t, &Token::RBrace) {
                self.next_token()?;
                return Ok(Some(CaptureList { entries, default }));
            }
            let convention = self.parse_capture_convention()?;
            let word = self.parse_capture_name(convention.is_none())?;
            let moved = self.parse_capture_move()?;
            if moved && !may_move(convention) {
                return Err(reject(Token::Caret, "'^' requires the 'var' capture convention"));
            }
            let kind = kind_of_capture(convention, moved);
            if let Some(name) = word {
                if is_captured(&entries, &name) {
                    return Err(duplicate_capture(name));
                }
                self.parse_capture_separator()?;
                let ghost before = source_captures_view(entries);
                entries.push(Capture { name, kind });
                assert(source_captures_view(entries) =~= before.push(source_captures_view(entries).last()));
                continue;
            }
            if default.is_some() {
                return Err(
                    reject(
                        Token::Identifier("capture convention".to_owned()),
                        "default capture convention was already specified",
                    )
                );
            }
            self.parse_capture_separator()?;
            default = Some(kind);
        }
    }

    /// A capture list, if a `{` is ahead.
    pub fn parse_capture_list(&mut self) -> (r: Result<Option<CaptureList>, ParseError>)
        ensures
            told_captures(r, final(self)@) == capture_list(old(self)@),
            left(final(self)@) <= left(old(self)@),
    {
        let t: Option<Token> = self.peek_token()?;
        if !(token_is(&t, &Token::LBrace)) {
            return Ok(None);
        }
        self.next_token()?;
        self.parse_captures_rest(no_captures(), None)
    }

    /// The `raises` effect, if it is ahead, and its error type, unless the header goes
    /// on or ends.
    pub fn parse_raises_effect<G: Grammar>(&mut self, g: &G) -> (r: Result<(bool, Option<Type>), ParseError>)
        ensures
            told_effects(r, final(self)@) == raises_effect(*g, old(self)@),
            left(final(self)@) <= left(old(self)@),
            r matches Ok(v) && v.0 ==> left(final(self)@) < left(old(self)@),
    {
        let t: Option<Token> = self.peek_token()?;
        if !(token_is(&t, &Token::Raises)) {
            return Ok((false, None));
        }
        self.next_token()?;
        let t: Option<Token> = self.peek_token()?;
        if word_is(&t, "capturing")
            || word_is(&t, "thin")
            || word_is(&t, "abi")
            || word_is(&t, "where")
            || token_is(&t, &Token::Arrow)
            || token_is(&t, &Token::Colon)
            || token_is(&t, &Token::LBrace) {
            return Ok((true, None));
        }
        let ty = g.parse_type(self)?;
        Ok((true, Some(ty)))
    }

    /// The effects of a declaration in any order; only what it raises is kept.
    #[verifier::loop_isolation(false)]
    pub fn parse_effects_rest<G: Grammar>(
        &mut self,
        g: &G,
        raises: bool,
        raises_type: Option<Type>,
    ) -> (r: Result<(bool, Option<Type>), ParseError>)
        ensures
            told_effects(r, final(self)@) == effects_rest(*g, old(self)@, raises, opt_type_view(raises_type)),
            left(final(self)@) <= left(old(self)@),
    {
        let ghost raises_0 = raises;
        let ghost raises_type_0 = opt_type_view(raises_type);
        let mut raises = raises;
        let mut raises_type = raises_type;
        loop
            invariant
                effects_rest(
                    *g,
                    self@,
                    raises,
                    opt_type_view(raises_type),
                ) == effects_rest(*g, old(self)@, raises_0, raises_type_0),
                left(self@) <= left(old(self)@),
            decreases left(self@),
        {
            let t: Option<Token> = self.peek_token()?;
            if token_is(&t, &Token::Raises) && !raises {
                let effect = self.parse_raises_effect(g)?;
                raises = effect.0;
                raises_type = effect.1;
                continue;
            }
            if word_is(&t, "capturing") || word_is(&t, "thin") || word_is(&t, "abi") {
                g.parse_erased_callable_effects(self)?;
                continue;
            }
            return Ok((raises, raises_type));
        }
    }

    /// The effects of a declaration.
    pub fn parse_callable_effects<G: Grammar>(&mut self, g: &G) -> (r: Result<(bool, Option<Type>), ParseError>)
        ensures
            told_effects(r, final(self)@) == callable_effects(*g, old(self)@),
            left(final(self)@) <= left(old(self)@),
    {
        self.parse_effects_rest(g, false, None)
    }

    /// `raise expr`
    pub fn parse_raise<G: Grammar>(&mut self, g: &G) -> (r: Result<StmtKind, ParseError>)
        ensures
            told_kind(r, final(self)@) == raise_stmt(*g, old(self)@),
            left(final(self)@) <= left(old(self)@),
            r is Ok ==> left(final(self)@) < left(old(self)@),
    {
        self.expect(Token::Raise, "Expected 'raise'")?;
        let value = g.parse_expression(self, Precedence::Lowest)?;
        self.expect_stmt_end()?;
        Ok(StmtKind::Raise(value))
    }

    /// The value of a `return`, if any.
    pub fn parse_return_value<G: Grammar>(&mut self, g: &G) -> (r: Result<Option<Expr>, ParseError>)
        ensures
            told_opt_expr(r, final(self)@) == return_value(*g, old(self)@),
            left(final(self)@) <= left(old(self)@),
    {
        let t: Option<Token> = self.peek_token()?;
        if token_is(&t, &Token::Newline) || token_is(&t, &Token::Eof) || t.is_none() {
            return Ok(None);
        }
        let value = self.parse_tuple_display(g)?;
        Ok(Some(value))
    }

    /// `return` or `return expr`
    pub fn parse_return<G: Grammar>(&mut self, g: &G) -> (r: Result<StmtKind, ParseError>)
        ensures
            told_kind(r, final(self)@) == return_stmt(*g, old(self)@),
            left(final(self)@) <= left(old(self)@),
            r is Ok ==> left(final(self)@) < left(old(self)@),
    {
        self.expect(Token::Return, "Expected 'return'")?;
        let value = self.parse_return_value(g)?;
        self.expect_stmt_end()?;
        Ok(StmtKind::Return(value))
    }

    /// How a loop binds its variable.
    pub fn parse_loop_binding_mode(&mut self) -> (r: Result<LoopBindingMode, ParseError>)
        ensures
            told_mode(r, final(self)@) == loop_binding_mode(old(self)@),
            left(final(self)@) <= left(old(self)@),
    {
        let t: Option<Token> = self.peek_token()?;
        if word_is(&t, "ref") {
            self.next_token()?;
            return Ok(LoopBindingMode::Ref);
        }
        if token_is(&t, &Token::Var) {
            self.next_token()?;
            return Ok(LoopBindingMode::Var);
        }
        Ok(LoopBindingMode::Immutable)
    }

    /// The result type of a function, if it has one.
    pub fn parse_result_type<G: Grammar>(&mut self, g: &G) -> (r: Result<Option<Type>, ParseError>)
        ensures
            told_opt_type(r, final(self)@) == result_type(*g, old(self)@),
            left(final(self)@) <= left(old(self)@),
    {
        let t: Option<Token> = self.peek_token()?;
        if !(token_is(&t, &Token::Arrow)) {
            return Ok(None);
        }
        self.next_token()?;
        let ty = g.parse_type(self)?;
        Ok(Some(ty))
    }

    /// Everything up to a `}` or the end of the input.
    #[verifier::loop_isolation(false)]
    pub fn parse_to_brace(&mut self) -> (r: Result<(), ParseError>)
        ensures
            told_unit(r, final(self)@) == to_brace(old(self)@),
            left(final(self)@) <= left(old(self)@),
    {
        loop
            invariant
                to_brace(self@) == to_brace(old(self)@),
                left(self@) <= left(old(self)@),
            decreases left(self@),
        {
            let t: Option<Token> = self.peek_token()?;
            if token_is(&t, &Token::RBrace) || t.is_none() {
                return Ok(());
            }
            self.next_token()?;
        }
    }

    /// A braced part behind the result type, which leaves no trace.
    pub fn parse_trailing_effects(&mut self) -> (r: Result<(), ParseError>)
        ensures
            told_unit(r, final(self)@) == trailing_effects(old(self)@),
            left(final(self)@) <= left(old(self)@),
    {
        let t: Option<Token> = self.peek_token()?;
        if !(token_is(&t, &Token::LBrace)) {
            return Ok(());
        }
        self.next_token()?;
        self.parse_to_brace()?;
        self.expect(Token::RBrace, "Expected '}' after function effects")
    }

    /// A statement of one word.
    pub fn parse_word_stmt(&mut self, kind: StmtKind) -> (r: Result<StmtKind, ParseError>)
        ensures
            told_kind(r, final(self)@) == word_stmt(old(self)@, kind@),
            left(final(self)@) <= left(old(self)@),
            r is Ok ==> left(final(self)@) < left(old(self)@),
    {
        self.next_token()?;
        self.expect_stmt_end()?;
        Ok(kind)
    }

    /// The name behind `as` in a `with` item, if any.
    pub fn parse_with_name(&mut self) -> (r: Result<Option<String>, ParseError>)
        ensures
            told_opt_word(r, final(self)@) == with_name(old(self)@),
            left(final(self)@) <= left(old(self)@),
    {
        let t: Option<Token> = self.peek_token()?;
        if !(token_is(&t, &Token::As)) {
            return Ok(None);
        }
        self.next_token()?;
        let name = self.expect_identifier("Expected a name after 'as' in a 'with' item")?;
        Ok(Some(name))
    }

    /// The managers of a `with` statement.
    #[verifier::loop_isolation(false)]
    pub fn parse_with_items<G: Grammar>(
        &mut self,
        g: &G,
        items: Vec<WithItem>,
    ) -> (r: Result<Vec<WithItem>, ParseError>)
        ensures
            told_items(r, final(self)@) == with_items(*g, old(self)@, with_items_view(items)),
            left(final(self)@) <= left(old(self)@),
    {
        let ghost items_0 = with_items_view(items);
        let mut items = items;
        loop
            invariant
                with_items(*g, self@, with_items_view(items)) == with_items(*g, old(self)@, items_0),
                left(self@) <= left(old(self)@),
            decreases left(self@),
        {
            let context = g.parse_expression(self, Precedence::Lowest)?;
            let var = self.parse_with_name()?;
            let ghost before = with_items_view(items);
            items.push(WithItem { context, var });
            assert(with_items_view(items) =~= before.push(with_items_view(items).last()));
            let t: Option<Token> = self.peek_token()?;
            if !(token_is(&t, &Token::Comma)) {
                return Ok(items);
            }
            self.next_token()?;
        }
    }

    /// The name that a handler binds, if any.
    pub fn parse_handler_name(&mut self) -> (r: Result<Option<String>, ParseError>)
        ensures
            told_opt_word(r, final(self)@) == handler_name(old(self)@),
            left(final(self)@) <= left(old(self)@),
    {
        let t: Option<Token> = self.peek_token()?;
        if is_name(&t) {
            let name = self.expect_identifier("Expected a name")?;
            return Ok(Some(name));
        }
        Ok(None)
    }

    /// The loop variable and what it runs over, from the keyword to the `:`.
    pub fn parse_loop_head<G: Grammar>(&mut self, g: &G) -> (r: Result<(String, LoopBindingMode, Expr), ParseError>)
        ensures
            told_loop_head(r, final(self)@) == loop_head(*g, old(self)@),
            left(final(self)@) <= left(old(self)@),
            r is Ok ==> left(final(self)@) < left(old(self)@),
    {
        self.expect(Token::For, "Expected 'for'")?;
        let binding = self.parse_loop_binding_mode()?;
        let var = self.expect_identifier("Expected a loop variable name after 'for'")?;
        self.expect(Token::In, "Expected 'in' after the loop variable")?;
        let iter = g.parse_expression(self, Precedence::Lowest)?;
        self.expect(Token::Colon, "Expected ':' after the for-loop iterable")?;
        Ok((var, binding, iter))
    }
}

} // verus!
