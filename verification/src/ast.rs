//! Syntax trees: expressions, types, statements and declarations.

use crate::data::{copy_opt_string, copy_strings, strings_view};
use crate::literal::{IntLiteral, IntLiteralModel, int_literal_view};
use crate::text::str_eq;
use vstd::prelude::*;

verus! {

/// How an argument is passed.
#[derive(Debug, Clone, Copy, PartialEq, Eq, Hash, Structural)]
pub enum ArgConvention {
    Imm,
    Mut,
    Var,
    Out,
    Ref,
    Deinit,
}

/// Element type of a SIMD value.
#[derive(Debug, Clone, Copy, PartialEq, Eq, Hash, Structural)]
pub enum Dtype {
    Bool,
    Int,
    Int8,
    Int16,
    Int32,
    Int64,
    UInt8,
    UInt16,
    UInt32,
    UInt64,
    Float32,
    Float64,
}

/// Binary operators.
#[derive(Debug, Clone, Copy, PartialEq, Eq, Hash, Structural)]
pub enum InfixOp {
    Add,
    Sub,
    Mul,
    Div,
    FloorDiv,
    Mod,
    Pow,
    MatMul,
    Shl,
    Shr,
    BitAnd,
    BitOr,
    BitXor,
    Lt,
    Gt,
    Le,
    Ge,
    Eq,
    Ne,
    And,
    Or,
    In,
    NotIn,
}

/// Unary operators.
#[derive(Debug, Clone, Copy, PartialEq, Eq, Hash, Structural)]
pub enum PrefixOp {
    Neg,
    Not,
}

/// The role of a declared parameter.
#[derive(Debug, Clone, Copy, PartialEq, Eq, Hash, Structural)]
pub enum ParamKind {
    Regular,
    Variadic,
    KwVariadic,
}

/// How a capture enters a closure.
#[derive(Debug, Clone, Copy, PartialEq, Eq, Hash, Structural)]
pub enum CaptureKind {
    Imm,
    Mut,
    Ref,
    Copy,
    Move,
}

/// How a loop binds its variable.
#[derive(Debug, Clone, Copy, PartialEq, Eq, Hash, Structural)]
pub enum LoopBindingMode {
    Immutable,
    Ref,
    Var,
}

/// A source annotation.
#[derive(Debug, PartialEq, Eq)]
pub enum Type {
    Int,
    UInt,
    Bool,
    StringLiteral,
    Float64,
    NoneType,
    Named(String, Vec<ParamArg>),
    /// `Self.T`, a parameter of the enclosing struct.
    SelfParam(String),
    Assoc { base: Box<Type>, name: String, args: Vec<ParamArg> },
    IndexedProjection { base: Box<Type>, index: Box<Expr> },
    SelfType,
    /// A callable whose key is already made.
    MaterializedCallable(String),
}

/// Mathematical model of [`Type`].
#[verifier::ext_equal]
pub enum TypeModel {
    Int,
    UInt,
    Bool,
    StringLiteral,
    Float64,
    NoneType,
    Named(Seq<char>, Seq<ParamArgModel>),
    SelfParam(Seq<char>),
    Assoc { base: Box<TypeModel>, name: Seq<char>, args: Seq<ParamArgModel> },
    IndexedProjection { base: Box<TypeModel>, index: Box<ExprModel> },
    SelfType,
    MaterializedCallable(Seq<char>),
}

/// One compile-time argument.
#[derive(Debug, PartialEq, Eq)]
pub enum ParamArg {
    Type(Type),
    Value(Expr),
    Named { name: String, value: Box<PlainArg> },
}

/// Mathematical model of [`ParamArg`].
#[verifier::ext_equal]
pub enum ParamArgModel {
    Type(TypeModel),
    Value(ExprModel),
    Named { name: Seq<char>, value: Box<PlainArgModel> },
}

/// A compile-time argument without a name.
#[derive(Debug, PartialEq, Eq)]
pub enum PlainArg {
    Type(Type),
    Value(Expr),
}

/// Mathematical model of [`PlainArg`].
#[verifier::ext_equal]
pub enum PlainArgModel {
    Type(TypeModel),
    Value(ExprModel),
}

/// A keyword argument.
#[derive(Debug, PartialEq, Eq)]
pub struct KwArg {
    pub name: String,
    pub value: Expr,
}

/// Mathematical model of [`KwArg`].
#[verifier::ext_equal]
pub struct KwArgModel {
    pub name: Seq<char>,
    pub value: ExprModel,
}

/// An expression with the byte range it was read from.
#[derive(Debug, PartialEq, Eq)]
pub struct Expr {
    pub kind: ExprKind,
    pub span: (usize, usize),
}

/// Mathematical model of [`Expr`].
#[verifier::ext_equal]
pub struct ExprModel {
    pub kind: ExprKindModel,
    pub span: (usize, usize),
}

/// What an expression is.
#[derive(Debug, PartialEq, Eq)]
#[allow(inconsistent_fields)]
pub enum ExprKind {
    Identifier(String),
    Int(IntLiteral),
    Bool(bool),
    Str(String),
    Member { object: Box<Expr>, field: String },
    Index { object: Box<Expr>, index: Box<Expr> },
    Slice { object: Box<Expr>, lower: Option<Box<Expr>>, upper: Option<Box<Expr>>, step: Option<Box<Expr>> },
    MultiIndex { object: Box<Expr>, args: Vec<Expr> },
    TypeApply { name: String, args: Vec<ParamArg> },
    Call { name: String, param_args: Vec<ParamArg>, args: Vec<Expr>, kwargs: Vec<KwArg> },
    Prefix(PrefixOp, Box<Expr>),
    Infix(InfixOp, Box<Expr>, Box<Expr>),
    TupleLit(Vec<Expr>),
    /// The missing initializer of a declaration.
    Uninitialized,
}

/// Mathematical model of [`ExprKind`].
#[verifier::ext_equal]
#[allow(inconsistent_fields)]
pub enum ExprKindModel {
    Identifier(Seq<char>),
    Int(IntLiteralModel),
    Bool(bool),
    Str(Seq<char>),
    Member { object: Box<ExprModel>, field: Seq<char> },
    Index { object: Box<ExprModel>, index: Box<ExprModel> },
    Slice {
        object: Box<ExprModel>,
        lower: Option<Box<ExprModel>>,
        upper: Option<Box<ExprModel>>,
        step: Option<Box<ExprModel>>,
    },
    MultiIndex { object: Box<ExprModel>, args: Seq<ExprModel> },
    TypeApply { name: Seq<char>, args: Seq<ParamArgModel> },
    Call { name: Seq<char>, param_args: Seq<ParamArgModel>, args: Seq<ExprModel>, kwargs: Seq<KwArgModel> },
    Prefix(PrefixOp, Box<ExprModel>),
    Infix(InfixOp, Box<ExprModel>, Box<ExprModel>),
    TupleLit(Seq<ExprModel>),
    Uninitialized,
}

/// One part of a template string.
#[derive(Debug, PartialEq, Eq)]
pub enum TStringPart {
    Literal(String),
    Value(Expr),
}

/// Mathematical model of [`TStringPart`].
#[verifier::ext_equal]
pub enum TStringPartModel {
    Literal(Seq<char>),
    Value(ExprModel),
}

/// A declared parameter.
#[derive(Debug, PartialEq, Eq)]
pub struct FnParam {
    pub name: String,
    pub ty: Type,
    pub kind: ParamKind,
    pub convention: Option<ArgConvention>,
    pub default: Option<Expr>,
}

/// Mathematical model of [`FnParam`].
#[verifier::ext_equal]
pub struct FnParamModel {
    pub name: Seq<char>,
    pub ty: TypeModel,
    pub kind: ParamKind,
    pub convention: Option<ArgConvention>,
    pub default: Option<ExprModel>,
}

/// A compile-time parameter of a declaration.
#[derive(Debug, PartialEq, Eq)]
pub struct TypeParam {
    pub name: String,
    pub bounds: Vec<String>,
}

/// Mathematical model of [`TypeParam`].
#[verifier::ext_equal]
pub struct TypeParamModel {
    pub name: Seq<char>,
    pub bounds: Seq<Seq<char>>,
}

/// A decorator: a dotted name and its arguments.
#[derive(Debug, PartialEq, Eq)]
pub struct Decorator {
    pub path: Vec<String>,
    pub args: Vec<Expr>,
    pub kwargs: Vec<KwArg>,
}

/// Mathematical model of [`Decorator`].
#[verifier::ext_equal]
pub struct DecoratorModel {
    pub path: Seq<Seq<char>>,
    pub args: Seq<ExprModel>,
    pub kwargs: Seq<KwArgModel>,
}

/// One captured name.
#[derive(Debug, PartialEq, Eq)]
pub struct Capture {
    pub name: String,
    pub kind: CaptureKind,
}

/// Mathematical model of [`Capture`].
#[verifier::ext_equal]
pub struct CaptureModel {
    pub name: Seq<char>,
    pub kind: CaptureKind,
}

/// The capture list of a closure.
#[derive(Debug, PartialEq, Eq)]
pub struct CaptureList {
    pub entries: Vec<Capture>,
    pub default: Option<CaptureKind>,
}

/// Mathematical model of [`CaptureList`].
#[verifier::ext_equal]
pub struct CaptureListModel {
    pub entries: Seq<CaptureModel>,
    pub default: Option<CaptureKind>,
}

/// One imported name.
#[derive(Debug, PartialEq, Eq)]
pub struct ImportName {
    pub name: String,
    pub alias: Option<String>,
}

/// Mathematical model of [`ImportName`].
#[verifier::ext_equal]
pub struct ImportNameModel {
    pub name: Seq<char>,
    pub alias: Option<Seq<char>>,
}

/// What a `from` import brings.
#[derive(Debug, PartialEq, Eq)]
pub enum ImportNames {
    Wildcard,
    Names(Vec<ImportName>),
}

/// Mathematical model of [`ImportNames`].
#[verifier::ext_equal]
pub enum ImportNamesModel {
    Wildcard,
    Names(Seq<ImportNameModel>),
}

/// One manager of a `with` statement.
#[derive(Debug, PartialEq, Eq)]
pub struct WithItem {
    pub context: Expr,
    pub var: Option<String>,
}

/// Mathematical model of [`WithItem`].
#[verifier::ext_equal]
pub struct WithItemModel {
    pub context: ExprModel,
    pub var: Option<Seq<char>>,
}

/// A method of a struct.
#[derive(Debug, PartialEq, Eq)]
pub struct Method {
    pub name: String,
    pub has_self: bool,
    pub self_convention: Option<ArgConvention>,
    pub positional_only: Option<usize>,
    pub keyword_only: Option<usize>,
    pub params: Vec<FnParam>,
    pub ret: Option<Type>,
    pub body: Vec<Stmt>,
}

/// Mathematical model of [`Method`].
#[verifier::ext_equal]
pub struct MethodModel {
    pub name: Seq<char>,
    pub has_self: bool,
    pub self_convention: Option<ArgConvention>,
    pub positional_only: Option<usize>,
    pub keyword_only: Option<usize>,
    pub params: Seq<FnParamModel>,
    pub ret: Option<TypeModel>,
    pub body: Seq<StmtModel>,
}

/// A statement with the byte range it was read from.
#[derive(Debug, PartialEq, Eq)]
pub struct Stmt {
    pub kind: StmtKind,
    pub span: (usize, usize),
}

/// Mathematical model of [`Stmt`].
#[verifier::ext_equal]
pub struct StmtModel {
    pub kind: StmtKindModel,
    pub span: (usize, usize),
}

/// What a statement is.
#[derive(Debug, PartialEq, Eq)]
#[allow(inconsistent_fields)]
pub enum StmtKind {
    Expr(Expr),
    VarDecl { name: String, ty: Option<Type>, value: Expr },
    RefDecl { name: String, value: Expr },
    Assign { name: String, value: Expr },
    SetPlace { place: Expr, value: Expr },
    AugAssign { place: Expr, op: InfixOp, value: Expr },
    Unpack { targets: Vec<Expr>, value: Expr, declares: bool },
    Comptime {
        name: String,
        type_params: Vec<TypeParam>,
        ty: Option<Type>,
        where_clauses: Vec<Expr>,
        value: Expr,
    },
    ComptimeIf { branches: Vec<(Expr, Vec<Stmt>)>, orelse: Option<Vec<Stmt>> },
    ComptimeFor { var: String, iter: Expr, body: Vec<Stmt> },
    Def {
        name: String,
        decorators: Vec<Decorator>,
        type_params: Vec<TypeParam>,
        params: Vec<FnParam>,
        positional_only: Option<usize>,
        keyword_only: Option<usize>,
        captures: Option<CaptureList>,
        raises: bool,
        raises_type: Option<Type>,
        ret: Option<Type>,
        where_clauses: Vec<Expr>,
        body: Vec<Stmt>,
    },
    Struct { name: String, decorators: Vec<Decorator>, methods: Vec<Method> },
    Trait { name: String, methods: Vec<Method> },
    If { branches: Vec<(Expr, Vec<Stmt>)>, orelse: Option<Vec<Stmt>> },
    While { cond: Expr, body: Vec<Stmt>, orelse: Option<Vec<Stmt>> },
    For { var: String, binding: LoopBindingMode, iter: Expr, body: Vec<Stmt>, orelse: Option<Vec<Stmt>> },
    With { items: Vec<WithItem>, body: Vec<Stmt> },
    Try {
        body: Vec<Stmt>,
        except: Option<(Option<String>, Vec<Stmt>)>,
        orelse: Option<Vec<Stmt>>,
        finalbody: Option<Vec<Stmt>>,
    },
    Return(Option<Expr>),
    Raise(Expr),
    Import { path: Vec<String>, alias: Option<String> },
    FromImport { level: usize, path: Vec<String>, names: ImportNames },
    Pass,
    Break,
    Continue,
}

/// Mathematical model of [`StmtKind`].
#[verifier::ext_equal]
#[allow(inconsistent_fields)]
pub enum StmtKindModel {
    Expr(ExprModel),
    VarDecl { name: Seq<char>, ty: Option<TypeModel>, value: ExprModel },
    RefDecl { name: Seq<char>, value: ExprModel },
    Assign { name: Seq<char>, value: ExprModel },
    SetPlace { place: ExprModel, value: ExprModel },
    AugAssign { place: ExprModel, op: InfixOp, value: ExprModel },
    Unpack { targets: Seq<ExprModel>, value: ExprModel, declares: bool },
    Comptime {
        name: Seq<char>,
        type_params: Seq<TypeParamModel>,
        ty: Option<TypeModel>,
        where_clauses: Seq<ExprModel>,
        value: ExprModel,
    },
    ComptimeIf { branches: Seq<(ExprModel, Seq<StmtModel>)>, orelse: Option<Seq<StmtModel>> },
    ComptimeFor { var: Seq<char>, iter: ExprModel, body: Seq<StmtModel> },
    Def {
        name: Seq<char>,
        decorators: Seq<DecoratorModel>,
        type_params: Seq<TypeParamModel>,
        params: Seq<FnParamModel>,
        positional_only: Option<usize>,
        keyword_only: Option<usize>,
        captures: Option<CaptureListModel>,
        raises: bool,
        raises_type: Option<TypeModel>,
        ret: Option<TypeModel>,
        where_clauses: Seq<ExprModel>,
        body: Seq<StmtModel>,
    },
    Struct { name: Seq<char>, decorators: Seq<DecoratorModel>, methods: Seq<MethodModel> },
    Trait { name: Seq<char>, methods: Seq<MethodModel> },
    If { branches: Seq<(ExprModel, Seq<StmtModel>)>, orelse: Option<Seq<StmtModel>> },
    While { cond: ExprModel, body: Seq<StmtModel>, orelse: Option<Seq<StmtModel>> },
    For {
        var: Seq<char>,
        binding: LoopBindingMode,
        iter: ExprModel,
        body: Seq<StmtModel>,
        orelse: Option<Seq<StmtModel>>,
    },
    With { items: Seq<WithItemModel>, body: Seq<StmtModel> },
    Try {
        body: Seq<StmtModel>,
        except: Option<(Option<Seq<char>>, Seq<StmtModel>)>,
        orelse: Option<Seq<StmtModel>>,
        finalbody: Option<Seq<StmtModel>>,
    },
    Return(Option<ExprModel>),
    Raise(ExprModel),
    Import { path: Seq<Seq<char>>, alias: Option<Seq<char>> },
    FromImport { level: usize, path: Seq<Seq<char>>, names: ImportNamesModel },
    Pass,
    Break,
    Continue,
}

/// The model of a [`Type`].
pub open spec fn type_view(x: Type) -> TypeModel
    decreases x,
{
    match x {
        Type::Int => TypeModel::Int,
        Type::UInt => TypeModel::UInt,
        Type::Bool => TypeModel::Bool,
        Type::StringLiteral => TypeModel::StringLiteral,
        Type::Float64 => TypeModel::Float64,
        Type::NoneType => TypeModel::NoneType,
        Type::Named(a0, a1) => TypeModel::Named(a0@, source_args_view(a1)),
        Type::SelfParam(a0) => TypeModel::SelfParam(a0@),
        Type::Assoc { base, name, args } => TypeModel::Assoc {
            base: Box::new(type_view(*base)),
            name: name@,
            args: source_args_view(args),
        },
        Type::IndexedProjection { base, index } => TypeModel::IndexedProjection {
            base: Box::new(type_view(*base)),
            index: Box::new(expr_view(*index)),
        },
        Type::SelfType => TypeModel::SelfType,
        Type::MaterializedCallable(a0) => TypeModel::MaterializedCallable(a0@),
    }
}

impl View for Type {
    type V = TypeModel;

    open spec fn view(&self) -> TypeModel {
        type_view(*self)
    }
}

impl Type {
    /// A structural copy.
    pub fn copy(&self) -> (r: Type)
        ensures
            r@ == self@,
        decreases self,
    {
        match self {
            Type::Int => Type::Int,
            Type::UInt => Type::UInt,
            Type::Bool => Type::Bool,
            Type::StringLiteral => Type::StringLiteral,
            Type::Float64 => Type::Float64,
            Type::NoneType => Type::NoneType,
            Type::Named(a0, a1) => Type::Named(a0.clone(), copy_source_args(a1)),
            Type::SelfParam(a0) => Type::SelfParam(a0.clone()),
            Type::Assoc { base, name, args } => Type::Assoc {
                base: Box::new(base.copy()),
                name: name.clone(),
                args: copy_source_args(args),
            },
            Type::IndexedProjection { base, index } => Type::IndexedProjection {
                base: Box::new(base.copy()),
                index: Box::new(index.copy()),
            },
            Type::SelfType => Type::SelfType,
            Type::MaterializedCallable(a0) => Type::MaterializedCallable(a0.clone()),
        }
    }
}

impl Clone for Type {
    fn clone(&self) -> (r: Type)
        ensures
            r@ == self@,
    {
        self.copy()
    }
}

/// The model of a [`ParamArg`].
pub open spec fn source_arg_view(x: ParamArg) -> ParamArgModel
    decreases x,
{
    match x {
        ParamArg::Type(a0) => ParamArgModel::Type(type_view(a0)),
        ParamArg::Value(a0) => ParamArgModel::Value(expr_view(a0)),
        ParamArg::Named { name, value } => ParamArgModel::Named {
            name: name@,
            value: Box::new(plain_arg_view(*value)),
        },
    }
}

impl View for ParamArg {
    type V = ParamArgModel;

    open spec fn view(&self) -> ParamArgModel {
        source_arg_view(*self)
    }
}

impl ParamArg {
    /// A structural copy.
    pub fn copy(&self) -> (r: ParamArg)
        ensures
            r@ == self@,
        decreases self,
    {
        match self {
            ParamArg::Type(a0) => ParamArg::Type(a0.copy()),
            ParamArg::Value(a0) => ParamArg::Value(a0.copy()),
            ParamArg::Named { name, value } => ParamArg::Named {
                name: name.clone(),
                value: Box::new(value.copy()),
            },
        }
    }
}

impl Clone for ParamArg {
    fn clone(&self) -> (r: ParamArg)
        ensures
            r@ == self@,
    {
        self.copy()
    }
}

/// The model of a [`PlainArg`].
pub open spec fn plain_arg_view(x: PlainArg) -> PlainArgModel
    decreases x,
{
    match x {
        PlainArg::Type(a0) => PlainArgModel::Type(type_view(a0)),
        PlainArg::Value(a0) => PlainArgModel::Value(expr_view(a0)),
    }
}

impl View for PlainArg {
    type V = PlainArgModel;

    open spec fn view(&self) -> PlainArgModel {
        plain_arg_view(*self)
    }
}

impl PlainArg {
    /// A structural copy.
    pub fn copy(&self) -> (r: PlainArg)
        ensures
            r@ == self@,
        decreases self,
    {
        match self {
            PlainArg::Type(a0) => PlainArg::Type(a0.copy()),
            PlainArg::Value(a0) => PlainArg::Value(a0.copy()),
        }
    }
}

impl Clone for PlainArg {
    fn clone(&self) -> (r: PlainArg)
        ensures
            r@ == self@,
    {
        self.copy()
    }
}

/// The model of a [`KwArg`].
pub open spec fn kw_arg_view(x: KwArg) -> KwArgModel
    decreases x,
{
    KwArgModel {
        name: x.name@,
        value: expr_view(x.value),
    }
}

impl View for KwArg {
    type V = KwArgModel;

    open spec fn view(&self) -> KwArgModel {
        kw_arg_view(*self)
    }
}

impl KwArg {
    /// A structural copy.
    pub fn copy(&self) -> (r: KwArg)
        ensures
            r@ == self@,
        decreases self,
    {
        KwArg {
            name: self.name.clone(),
            value: self.value.copy(),
        }
    }
}

impl Clone for KwArg {
    fn clone(&self) -> (r: KwArg)
        ensures
            r@ == self@,
    {
        self.copy()
    }
}

/// The model of a [`Expr`].
pub open spec fn expr_view(x: Expr) -> ExprModel
    decreases x,
{
    ExprModel {
        kind: expr_kind_view(x.kind),
        span: x.span,
    }
}

impl View for Expr {
    type V = ExprModel;

    open spec fn view(&self) -> ExprModel {
        expr_view(*self)
    }
}

impl Expr {
    /// A structural copy.
    pub fn copy(&self) -> (r: Expr)
        ensures
            r@ == self@,
        decreases self,
    {
        Expr {
            kind: self.kind.copy(),
            span: self.span,
        }
    }
}

impl Clone for Expr {
    fn clone(&self) -> (r: Expr)
        ensures
            r@ == self@,
    {
        self.copy()
    }
}

/// The model of a [`ExprKind`].
pub open spec fn expr_kind_view(x: ExprKind) -> ExprKindModel
    decreases x,
{
    match x {
        ExprKind::Identifier(a0) => ExprKindModel::Identifier(a0@),
        ExprKind::Int(a0) => ExprKindModel::Int(int_literal_view(a0)),
        ExprKind::Bool(a0) => ExprKindModel::Bool(a0),
        ExprKind::Str(a0) => ExprKindModel::Str(a0@),
        ExprKind::Member { object, field } => ExprKindModel::Member {
            object: Box::new(expr_view(*object)),
            field: field@,
        },
        ExprKind::Index { object, index } => ExprKindModel::Index {
            object: Box::new(expr_view(*object)),
            index: Box::new(expr_view(*index)),
        },
        ExprKind::Slice { object, lower, upper, step } => ExprKindModel::Slice {
            object: Box::new(expr_view(*object)),
            lower: match lower { Some(x) => Some(Box::new(expr_view(*x))), None => None },
            upper: match upper { Some(x) => Some(Box::new(expr_view(*x))), None => None },
            step: match step { Some(x) => Some(Box::new(expr_view(*x))), None => None },
        },
        ExprKind::MultiIndex { object, args } => ExprKindModel::MultiIndex {
            object: Box::new(expr_view(*object)),
            args: exprs_view(args),
        },
        ExprKind::TypeApply { name, args } => ExprKindModel::TypeApply {
            name: name@,
            args: source_args_view(args),
        },
        ExprKind::Call {
            name,
            param_args,
            args,
            kwargs,
        } => ExprKindModel::Call {
            name: name@,
            param_args: source_args_view(param_args),
            args: exprs_view(args),
            kwargs: kw_args_view(kwargs),
        },
        ExprKind::Prefix(a0, a1) => ExprKindModel::Prefix(a0, Box::new(expr_view(*a1))),
        ExprKind::Infix(a0, a1, a2) => ExprKindModel::Infix(
            a0,
            Box::new(expr_view(*a1)),
            Box::new(expr_view(*a2)),
        ),
        ExprKind::TupleLit(a0) => ExprKindModel::TupleLit(exprs_view(a0)),
        ExprKind::Uninitialized => ExprKindModel::Uninitialized,
    }
}

impl View for ExprKind {
    type V = ExprKindModel;

    open spec fn view(&self) -> ExprKindModel {
        expr_kind_view(*self)
    }
}

impl ExprKind {
    /// A structural copy.
    pub fn copy(&self) -> (r: ExprKind)
        ensures
            r@ == self@,
        decreases self,
    {
        match self {
            ExprKind::Identifier(a0) => ExprKind::Identifier(a0.clone()),
            ExprKind::Int(a0) => ExprKind::Int(a0.copy()),
            ExprKind::Bool(a0) => ExprKind::Bool(*a0),
            ExprKind::Str(a0) => ExprKind::Str(a0.clone()),
            ExprKind::Member { object, field } => ExprKind::Member {
                object: Box::new(object.copy()),
                field: field.clone(),
            },
            ExprKind::Index { object, index } => ExprKind::Index {
                object: Box::new(object.copy()),
                index: Box::new(index.copy()),
            },
            ExprKind::Slice { object, lower, upper, step } => ExprKind::Slice {
                object: Box::new(object.copy()),
                lower: copy_opt_boxed_expr(lower),
                upper: copy_opt_boxed_expr(upper),
                step: copy_opt_boxed_expr(step),
            },
            ExprKind::MultiIndex { object, args } => ExprKind::MultiIndex {
                object: Box::new(object.copy()),
                args: copy_exprs(args),
            },
            ExprKind::TypeApply { name, args } => ExprKind::TypeApply {
                name: name.clone(),
                args: copy_source_args(args),
            },
            ExprKind::Call {
                name,
                param_args,
                args,
                kwargs,
            } => ExprKind::Call {
                name: name.clone(),
                param_args: copy_source_args(param_args),
                args: copy_exprs(args),
                kwargs: copy_kw_args(kwargs),
            },
            ExprKind::Prefix(a0, a1) => ExprKind::Prefix(*a0, Box::new(a1.copy())),
            ExprKind::Infix(a0, a1, a2) => ExprKind::Infix(*a0, Box::new(a1.copy()), Box::new(a2.copy())),
            ExprKind::TupleLit(a0) => ExprKind::TupleLit(copy_exprs(a0)),
            ExprKind::Uninitialized => ExprKind::Uninitialized,
        }
    }
}

impl Clone for ExprKind {
    fn clone(&self) -> (r: ExprKind)
        ensures
            r@ == self@,
    {
        self.copy()
    }
}

/// The model of a [`TStringPart`].
pub open spec fn tstring_part_view(x: TStringPart) -> TStringPartModel
    decreases x,
{
    match x {
        TStringPart::Literal(a0) => TStringPartModel::Literal(a0@),
        TStringPart::Value(a0) => TStringPartModel::Value(expr_view(a0)),
    }
}

impl View for TStringPart {
    type V = TStringPartModel;

    open spec fn view(&self) -> TStringPartModel {
        tstring_part_view(*self)
    }
}

impl TStringPart {
    /// A structural copy.
    pub fn copy(&self) -> (r: TStringPart)
        ensures
            r@ == self@,
        decreases self,
    {
        match self {
            TStringPart::Literal(a0) => TStringPart::Literal(a0.clone()),
            TStringPart::Value(a0) => TStringPart::Value(a0.copy()),
        }
    }
}

impl Clone for TStringPart {
    fn clone(&self) -> (r: TStringPart)
        ensures
            r@ == self@,
    {
        self.copy()
    }
}

/// The model of a [`FnParam`].
pub open spec fn fn_param_view(x: FnParam) -> FnParamModel
    decreases x,
{
    FnParamModel {
        name: x.name@,
        ty: type_view(x.ty),
        kind: x.kind,
        convention: x.convention,
        default: match x.default { Some(x) => Some(expr_view(x)), None => None },
    }
}

impl View for FnParam {
    type V = FnParamModel;

    open spec fn view(&self) -> FnParamModel {
        fn_param_view(*self)
    }
}

impl FnParam {
    /// A structural copy.
    pub fn copy(&self) -> (r: FnParam)
        ensures
            r@ == self@,
        decreases self,
    {
        FnParam {
            name: self.name.clone(),
            ty: self.ty.copy(),
            kind: self.kind,
            convention: self.convention,
            default: copy_opt_expr(&self.default),
        }
    }
}

impl Clone for FnParam {
    fn clone(&self) -> (r: FnParam)
        ensures
            r@ == self@,
    {
        self.copy()
    }
}

/// The model of a [`TypeParam`].
pub open spec fn type_param_view(x: TypeParam) -> TypeParamModel
    decreases x,
{
    TypeParamModel {
        name: x.name@,
        bounds: strings_view(x.bounds),
    }
}

impl View for TypeParam {
    type V = TypeParamModel;

    open spec fn view(&self) -> TypeParamModel {
        type_param_view(*self)
    }
}

impl TypeParam {
    /// A structural copy.
    pub fn copy(&self) -> (r: TypeParam)
        ensures
            r@ == self@,
        decreases self,
    {
        TypeParam {
            name: self.name.clone(),
            bounds: copy_strings(&self.bounds),
        }
    }
}

impl Clone for TypeParam {
    fn clone(&self) -> (r: TypeParam)
        ensures
            r@ == self@,
    {
        self.copy()
    }
}

/// The model of a [`Decorator`].
pub open spec fn decorator_view(x: Decorator) -> DecoratorModel
    decreases x,
{
    DecoratorModel {
        path: strings_view(x.path),
        args: exprs_view(x.args),
        kwargs: kw_args_view(x.kwargs),
    }
}

impl View for Decorator {
    type V = DecoratorModel;

    open spec fn view(&self) -> DecoratorModel {
        decorator_view(*self)
    }
}

impl Decorator {
    /// A structural copy.
    pub fn copy(&self) -> (r: Decorator)
        ensures
            r@ == self@,
        decreases self,
    {
        Decorator {
            path: copy_strings(&self.path),
            args: copy_exprs(&self.args),
            kwargs: copy_kw_args(&self.kwargs),
        }
    }
}

impl Clone for Decorator {
    fn clone(&self) -> (r: Decorator)
        ensures
            r@ == self@,
    {
        self.copy()
    }
}

/// The model of a [`Capture`].
pub open spec fn source_capture_view(x: Capture) -> CaptureModel
    decreases x,
{
    CaptureModel {
        name: x.name@,
        kind: x.kind,
    }
}

impl View for Capture {
    type V = CaptureModel;

    open spec fn view(&self) -> CaptureModel {
        source_capture_view(*self)
    }
}

impl Capture {
    /// A structural copy.
    pub fn copy(&self) -> (r: Capture)
        ensures
            r@ == self@,
        decreases self,
    {
        Capture {
            name: self.name.clone(),
            kind: self.kind,
        }
    }
}

impl Clone for Capture {
    fn clone(&self) -> (r: Capture)
        ensures
            r@ == self@,
    {
        self.copy()
    }
}

/// The model of a [`CaptureList`].
pub open spec fn capture_list_view(x: CaptureList) -> CaptureListModel
    decreases x,
{
    CaptureListModel {
        entries: source_captures_view(x.entries),
        default: x.default,
    }
}

impl View for CaptureList {
    type V = CaptureListModel;

    open spec fn view(&self) -> CaptureListModel {
        capture_list_view(*self)
    }
}

impl CaptureList {
    /// A structural copy.
    pub fn copy(&self) -> (r: CaptureList)
        ensures
            r@ == self@,
        decreases self,
    {
        CaptureList {
            entries: copy_source_captures(&self.entries),
            default: self.default,
        }
    }
}

impl Clone for CaptureList {
    fn clone(&self) -> (r: CaptureList)
        ensures
            r@ == self@,
    {
        self.copy()
    }
}

/// The model of a [`ImportName`].
pub open spec fn import_name_view(x: ImportName) -> ImportNameModel
    decreases x,
{
    ImportNameModel {
        name: x.name@,
        alias: match x.alias { Some(x) => Some(x@), None => None },
    }
}

impl View for ImportName {
    type V = ImportNameModel;

    open spec fn view(&self) -> ImportNameModel {
        import_name_view(*self)
    }
}

impl ImportName {
    /// A structural copy.
    pub fn copy(&self) -> (r: ImportName)
        ensures
            r@ == self@,
        decreases self,
    {
        ImportName {
            name: self.name.clone(),
            alias: copy_opt_string(&self.alias),
        }
    }
}

impl Clone for ImportName {
    fn clone(&self) -> (r: ImportName)
        ensures
            r@ == self@,
    {
        self.copy()
    }
}

/// The model of a [`ImportNames`].
pub open spec fn import_names_view(x: ImportNames) -> ImportNamesModel
    decreases x,
{
    match x {
        ImportNames::Wildcard => ImportNamesModel::Wildcard,
        ImportNames::Names(a0) => ImportNamesModel::Names(imported_names_view(a0)),
    }
}

impl View for ImportNames {
    type V = ImportNamesModel;

    open spec fn view(&self) -> ImportNamesModel {
        import_names_view(*self)
    }
}

impl ImportNames {
    /// A structural copy.
    pub fn copy(&self) -> (r: ImportNames)
        ensures
            r@ == self@,
        decreases self,
    {
        match self {
            ImportNames::Wildcard => ImportNames::Wildcard,
            ImportNames::Names(a0) => ImportNames::Names(copy_imported_names(a0)),
        }
    }
}

impl Clone for ImportNames {
    fn clone(&self) -> (r: ImportNames)
        ensures
            r@ == self@,
    {
        self.copy()
    }
}

/// The model of a [`WithItem`].
pub open spec fn with_item_view(x: WithItem) -> WithItemModel
    decreases x,
{
    WithItemModel {
        context: expr_view(x.context),
        var: match x.var { Some(x) => Some(x@), None => None },
    }
}

impl View for WithItem {
    type V = WithItemModel;

    open spec fn view(&self) -> WithItemModel {
        with_item_view(*self)
    }
}

impl WithItem {
    /// A structural copy.
    pub fn copy(&self) -> (r: WithItem)
        ensures
            r@ == self@,
        decreases self,
    {
        WithItem {
            context: self.context.copy(),
            var: copy_opt_string(&self.var),
        }
    }
}

impl Clone for WithItem {
    fn clone(&self) -> (r: WithItem)
        ensures
            r@ == self@,
    {
        self.copy()
    }
}

/// The model of a [`Method`].
pub open spec fn method_view(x: Method) -> MethodModel
    decreases x,
{
    MethodModel {
        name: x.name@,
        has_self: x.has_self,
        self_convention: x.self_convention,
        positional_only: x.positional_only,
        keyword_only: x.keyword_only,
        params: fn_params_view(x.params),
        ret: match x.ret { Some(x) => Some(type_view(x)), None => None },
        body: stmts_view(x.body),
    }
}

impl View for Method {
    type V = MethodModel;

    open spec fn view(&self) -> MethodModel {
        method_view(*self)
    }
}

impl Method {
    /// A structural copy.
    pub fn copy(&self) -> (r: Method)
        ensures
            r@ == self@,
        decreases self,
    {
        Method {
            name: self.name.clone(),
            has_self: self.has_self,
            self_convention: self.self_convention,
            positional_only: self.positional_only,
            keyword_only: self.keyword_only,
            params: copy_fn_params(&self.params),
            ret: copy_opt_type(&self.ret),
            body: copy_stmts(&self.body),
        }
    }
}

impl Clone for Method {
    fn clone(&self) -> (r: Method)
        ensures
            r@ == self@,
    {
        self.copy()
    }
}

/// The model of a [`Stmt`].
pub open spec fn stmt_view(x: Stmt) -> StmtModel
    decreases x,
{
    StmtModel {
        kind: stmt_kind_view(x.kind),
        span: x.span,
    }
}

impl View for Stmt {
    type V = StmtModel;

    open spec fn view(&self) -> StmtModel {
        stmt_view(*self)
    }
}

impl Stmt {
    /// A structural copy.
    pub fn copy(&self) -> (r: Stmt)
        ensures
            r@ == self@,
        decreases self,
    {
        Stmt {
            kind: self.kind.copy(),
            span: self.span,
        }
    }
}

impl Clone for Stmt {
    fn clone(&self) -> (r: Stmt)
        ensures
            r@ == self@,
    {
        self.copy()
    }
}

/// The model of a [`StmtKind`].
pub open spec fn stmt_kind_view(x: StmtKind) -> StmtKindModel
    decreases x,
{
    match x {
        StmtKind::Expr(a0) => StmtKindModel::Expr(expr_view(a0)),
        StmtKind::VarDecl { name, ty, value } => StmtKindModel::VarDecl {
            name: name@,
            ty: match ty { Some(x) => Some(type_view(x)), None => None },
            value: expr_view(value),
        },
        StmtKind::RefDecl { name, value } => StmtKindModel::RefDecl { name: name@, value: expr_view(value) },
        StmtKind::Assign { name, value } => StmtKindModel::Assign { name: name@, value: expr_view(value) },
        StmtKind::SetPlace { place, value } => StmtKindModel::SetPlace {
            place: expr_view(place),
            value: expr_view(value),
        },
        StmtKind::AugAssign { place, op, value } => StmtKindModel::AugAssign {
            place: expr_view(place),
            op,
            value: expr_view(value),
        },
        StmtKind::Unpack { targets, value, declares } => StmtKindModel::Unpack {
            targets: exprs_view(targets),
            value: expr_view(value),
            declares,
        },
        StmtKind::Comptime {
            name,
            type_params,
            ty,
            where_clauses,
            value,
        } => StmtKindModel::Comptime {
            name: name@,
            type_params: type_params_view(type_params),
            ty: match ty { Some(x) => Some(type_view(x)), None => None },
            where_clauses: exprs_view(where_clauses),
            value: expr_view(value),
        },
        StmtKind::ComptimeIf { branches, orelse } => StmtKindModel::ComptimeIf {
            branches: expr_stmts_list_view(branches),
            orelse: match orelse { Some(x) => Some(stmts_view(x)), None => None },
        },
        StmtKind::ComptimeFor { var, iter, body } => StmtKindModel::ComptimeFor {
            var: var@,
            iter: expr_view(iter),
            body: stmts_view(body),
        },
        StmtKind::Def {
            name,
            decorators,
            type_params,
            params,
            positional_only,
            keyword_only,
            captures,
            raises,
            raises_type,
            ret,
            where_clauses,
            body,
        } => StmtKindModel::Def {
            name: name@,
            decorators: decorators_view(decorators),
            type_params: type_params_view(type_params),
            params: fn_params_view(params),
            positional_only,
            keyword_only,
            captures: match captures { Some(x) => Some(capture_list_view(x)), None => None },
            raises,
            raises_type: match raises_type { Some(x) => Some(type_view(x)), None => None },
            ret: match ret { Some(x) => Some(type_view(x)), None => None },
            where_clauses: exprs_view(where_clauses),
            body: stmts_view(body),
        },
        StmtKind::Struct { name, decorators, methods } => StmtKindModel::Struct {
            name: name@,
            decorators: decorators_view(decorators),
            methods: methods_view(methods),
        },
        StmtKind::Trait { name, methods } => StmtKindModel::Trait {
            name: name@,
            methods: methods_view(methods),
        },
        StmtKind::If { branches, orelse } => StmtKindModel::If {
            branches: expr_stmts_list_view(branches),
            orelse: match orelse { Some(x) => Some(stmts_view(x)), None => None },
        },
        StmtKind::While { cond, body, orelse } => StmtKindModel::While {
            cond: expr_view(cond),
            body: stmts_view(body),
            orelse: match orelse { Some(x) => Some(stmts_view(x)), None => None },
        },
        StmtKind::For {
            var,
            binding,
            iter,
            body,
            orelse,
        } => StmtKindModel::For {
            var: var@,
            binding,
            iter: expr_view(iter),
            body: stmts_view(body),
            orelse: match orelse { Some(x) => Some(stmts_view(x)), None => None },
        },
        StmtKind::With { items, body } => StmtKindModel::With {
            items: with_items_view(items),
            body: stmts_view(body),
        },
        StmtKind::Try {
            body,
            except,
            orelse,
            finalbody,
        } => StmtKindModel::Try {
            body: stmts_view(body),
            except: match except {
                Some(x) => Some((match x.0 { Some(xx) => Some(xx@), None => None }, stmts_view(x.1))),
                None => None,
            },
            orelse: match orelse { Some(x) => Some(stmts_view(x)), None => None },
            finalbody: match finalbody { Some(x) => Some(stmts_view(x)), None => None },
        },
        StmtKind::Return(a0) => StmtKindModel::Return(
            match a0 { Some(x) => Some(expr_view(x)), None => None }
        ),
        StmtKind::Raise(a0) => StmtKindModel::Raise(expr_view(a0)),
        StmtKind::Import { path, alias } => StmtKindModel::Import {
            path: strings_view(path),
            alias: match alias { Some(x) => Some(x@), None => None },
        },
        StmtKind::FromImport { level, path, names } => StmtKindModel::FromImport {
            level,
            path: strings_view(path),
            names: import_names_view(names),
        },
        StmtKind::Pass => StmtKindModel::Pass,
        StmtKind::Break => StmtKindModel::Break,
        StmtKind::Continue => StmtKindModel::Continue,
    }
}

impl View for StmtKind {
    type V = StmtKindModel;

    open spec fn view(&self) -> StmtKindModel {
        stmt_kind_view(*self)
    }
}

impl StmtKind {
    /// A structural copy.
    pub fn copy(&self) -> (r: StmtKind)
        ensures
            r@ == self@,
        decreases self,
    {
        match self {
            StmtKind::Expr(a0) => StmtKind::Expr(a0.copy()),
            StmtKind::VarDecl { name, ty, value } => StmtKind::VarDecl {
                name: name.clone(),
                ty: copy_opt_type(ty),
                value: value.copy(),
            },
            StmtKind::RefDecl { name, value } => StmtKind::RefDecl {
                name: name.clone(),
                value: value.copy(),
            },
            StmtKind::Assign { name, value } => StmtKind::Assign { name: name.clone(), value: value.copy() },
            StmtKind::SetPlace { place, value } => StmtKind::SetPlace {
                place: place.copy(),
                value: value.copy(),
            },
            StmtKind::AugAssign { place, op, value } => StmtKind::AugAssign {
                place: place.copy(),
                op: *op,
                value: value.copy(),
            },
            StmtKind::Unpack { targets, value, declares } => StmtKind::Unpack {
                targets: copy_exprs(targets),
                value: value.copy(),
                declares: *declares,
            },
            StmtKind::Comptime {
                name,
                type_params,
                ty,
                where_clauses,
                value,
            } => StmtKind::Comptime {
                name: name.clone(),
                type_params: copy_type_params(type_params),
                ty: copy_opt_type(ty),
                where_clauses: copy_exprs(where_clauses),
                value: value.copy(),
            },
            StmtKind::ComptimeIf { branches, orelse } => StmtKind::ComptimeIf {
                branches: copy_expr_stmts_list(branches),
                orelse: copy_opt_stmts(orelse),
            },
            StmtKind::ComptimeFor { var, iter, body } => StmtKind::ComptimeFor {
                var: var.clone(),
                iter: iter.copy(),
                body: copy_stmts(body),
            },
            StmtKind::Def {
                name,
                decorators,
                type_params,
                params,
                positional_only,
                keyword_only,
                captures,
                raises,
                raises_type,
                ret,
                where_clauses,
                body,
            } => StmtKind::Def {
                name: name.clone(),
                decorators: copy_decorators(decorators),
                type_params: copy_type_params(type_params),
                params: copy_fn_params(params),
                positional_only: *positional_only,
                keyword_only: *keyword_only,
                captures: copy_opt_capture_list(captures),
                raises: *raises,
                raises_type: copy_opt_type(raises_type),
                ret: copy_opt_type(ret),
                where_clauses: copy_exprs(where_clauses),
                body: copy_stmts(body),
            },
            StmtKind::Struct { name, decorators, methods } => StmtKind::Struct {
                name: name.clone(),
                decorators: copy_decorators(decorators),
                methods: copy_methods(methods),
            },
            StmtKind::Trait { name, methods } => StmtKind::Trait {
                name: name.clone(),
                methods: copy_methods(methods),
            },
            StmtKind::If { branches, orelse } => StmtKind::If {
                branches: copy_expr_stmts_list(branches),
                orelse: copy_opt_stmts(orelse),
            },
            StmtKind::While { cond, body, orelse } => StmtKind::While {
                cond: cond.copy(),
                body: copy_stmts(body),
                orelse: copy_opt_stmts(orelse),
            },
            StmtKind::For {
                var,
                binding,
                iter,
                body,
                orelse,
            } => StmtKind::For {
                var: var.clone(),
                binding: *binding,
                iter: iter.copy(),
                body: copy_stmts(body),
                orelse: copy_opt_stmts(orelse),
            },
            StmtKind::With { items, body } => StmtKind::With {
                items: copy_with_items(items),
                body: copy_stmts(body),
            },
            StmtKind::Try {
                body,
                except,
                orelse,
                finalbody,
            } => StmtKind::Try {
                body: copy_stmts(body),
                except: copy_opt_opt_string_stmts(except),
                orelse: copy_opt_stmts(orelse),
                finalbody: copy_opt_stmts(finalbody),
            },
            StmtKind::Return(a0) => StmtKind::Return(copy_opt_expr(a0)),
            StmtKind::Raise(a0) => StmtKind::Raise(a0.copy()),
            StmtKind::Import { path, alias } => StmtKind::Import {
                path: copy_strings(path),
                alias: copy_opt_string(alias),
            },
            StmtKind::FromImport { level, path, names } => StmtKind::FromImport {
                level: *level,
                path: copy_strings(path),
                names: names.copy(),
            },
            StmtKind::Pass => StmtKind::Pass,
            StmtKind::Break => StmtKind::Break,
            StmtKind::Continue => StmtKind::Continue,
        }
    }
}

impl Clone for StmtKind {
    fn clone(&self) -> (r: StmtKind)
        ensures
            r@ == self@,
    {
        self.copy()
    }
}

/// Model of a `Vec<ParamArg>`.
pub open spec fn source_args_view(v: Vec<ParamArg>) -> Seq<ParamArgModel>
    decreases v,
{
    Seq::new(v@.len(), |i: int| if 0 <= i < v@.len() { source_arg_view(v@[i]) } else { arbitrary() })
}

pub fn copy_source_args(v: &Vec<ParamArg>) -> (r: Vec<ParamArg>)
    ensures
        source_args_view(r) == source_args_view(*v),
    decreases v,
{
    let mut out: Vec<ParamArg> = Vec::new();
    for i in 0..v.len()
        invariant
            out@.len() == i,
            forall|j: int| 0 <= j < i ==> source_args_view(out)[j] == source_args_view(*v)[j],
    {
        let ghost before = out;
        out.push(v[i].copy());
        assert forall|j: int| 0 <= j < i + 1 implies source_args_view(out)[j] == source_args_view(*v)[j] by {
            if j < i {
                assert(out@[j] == before@[j]);
                assert(source_args_view(before)[j] == source_args_view(*v)[j]);
            }
        }
    }
    assert(source_args_view(out) =~= source_args_view(*v));
    out
}

/// Model of an `Option<Box<Expr>>`.
pub open spec fn opt_boxed_expr_view(v: Option<Box<Expr>>) -> Option<Box<ExprModel>> {
    match v {
        Some(x) => Some(Box::new(expr_view(*x))),
        None => None,
    }
}

pub fn copy_opt_boxed_expr(v: &Option<Box<Expr>>) -> (r: Option<Box<Expr>>)
    ensures
        opt_boxed_expr_view(r) == opt_boxed_expr_view(*v),
    decreases v,
{
    match v {
        Some(x) => Some(Box::new(x.copy())),
        None => None,
    }
}

/// Model of a `Vec<Expr>`.
pub open spec fn exprs_view(v: Vec<Expr>) -> Seq<ExprModel>
    decreases v,
{
    Seq::new(v@.len(), |i: int| if 0 <= i < v@.len() { expr_view(v@[i]) } else { arbitrary() })
}

pub fn copy_exprs(v: &Vec<Expr>) -> (r: Vec<Expr>)
    ensures
        exprs_view(r) == exprs_view(*v),
    decreases v,
{
    let mut out: Vec<Expr> = Vec::new();
    for i in 0..v.len()
        invariant
            out@.len() == i,
            forall|j: int| 0 <= j < i ==> exprs_view(out)[j] == exprs_view(*v)[j],
    {
        let ghost before = out;
        out.push(v[i].copy());
        assert forall|j: int| 0 <= j < i + 1 implies exprs_view(out)[j] == exprs_view(*v)[j] by {
            if j < i {
                assert(out@[j] == before@[j]);
                assert(exprs_view(before)[j] == exprs_view(*v)[j]);
            }
        }
    }
    assert(exprs_view(out) =~= exprs_view(*v));
    out
}

/// Model of a `Vec<KwArg>`.
pub open spec fn kw_args_view(v: Vec<KwArg>) -> Seq<KwArgModel>
    decreases v,
{
    Seq::new(v@.len(), |i: int| if 0 <= i < v@.len() { kw_arg_view(v@[i]) } else { arbitrary() })
}

pub fn copy_kw_args(v: &Vec<KwArg>) -> (r: Vec<KwArg>)
    ensures
        kw_args_view(r) == kw_args_view(*v),
    decreases v,
{
    let mut out: Vec<KwArg> = Vec::new();
    for i in 0..v.len()
        invariant
            out@.len() == i,
            forall|j: int| 0 <= j < i ==> kw_args_view(out)[j] == kw_args_view(*v)[j],
    {
        let ghost before = out;
        out.push(v[i].copy());
        assert forall|j: int| 0 <= j < i + 1 implies kw_args_view(out)[j] == kw_args_view(*v)[j] by {
            if j < i {
                assert(out@[j] == before@[j]);
                assert(kw_args_view(before)[j] == kw_args_view(*v)[j]);
            }
        }
    }
    assert(kw_args_view(out) =~= kw_args_view(*v));
    out
}

/// Model of an `Option<Expr>`.
pub open spec fn opt_expr_view(v: Option<Expr>) -> Option<ExprModel> {
    match v {
        Some(x) => Some(expr_view(x)),
        None => None,
    }
}

pub fn copy_opt_expr(v: &Option<Expr>) -> (r: Option<Expr>)
    ensures
        opt_expr_view(r) == opt_expr_view(*v),
    decreases v,
{
    match v {
        Some(x) => Some(x.copy()),
        None => None,
    }
}

/// Model of a `Vec<Capture>`.
pub open spec fn source_captures_view(v: Vec<Capture>) -> Seq<CaptureModel>
    decreases v,
{
    Seq::new(v@.len(), |i: int| if 0 <= i < v@.len() { source_capture_view(v@[i]) } else { arbitrary() })
}

pub fn copy_source_captures(v: &Vec<Capture>) -> (r: Vec<Capture>)
    ensures
        source_captures_view(r) == source_captures_view(*v),
    decreases v,
{
    let mut out: Vec<Capture> = Vec::new();
    for i in 0..v.len()
        invariant
            out@.len() == i,
            forall|j: int| 0 <= j < i ==> source_captures_view(out)[j] == source_captures_view(*v)[j],
    {
        let ghost before = out;
        out.push(v[i].copy());
        assert forall|j: int| 0 <= j < i + 1 implies source_captures_view(out)[j] == source_captures_view(*v)[j] by {
            if j < i {
                assert(out@[j] == before@[j]);
                assert(source_captures_view(before)[j] == source_captures_view(*v)[j]);
            }
        }
    }
    assert(source_captures_view(out) =~= source_captures_view(*v));
    out
}

/// Model of a `Vec<ImportName>`.
pub open spec fn imported_names_view(v: Vec<ImportName>) -> Seq<ImportNameModel>
    decreases v,
{
    Seq::new(v@.len(), |i: int| if 0 <= i < v@.len() { import_name_view(v@[i]) } else { arbitrary() })
}

pub fn copy_imported_names(v: &Vec<ImportName>) -> (r: Vec<ImportName>)
    ensures
        imported_names_view(r) == imported_names_view(*v),
    decreases v,
{
    let mut out: Vec<ImportName> = Vec::new();
    for i in 0..v.len()
        invariant
            out@.len() == i,
            forall|j: int| 0 <= j < i ==> imported_names_view(out)[j] == imported_names_view(*v)[j],
    {
        let ghost before = out;
        out.push(v[i].copy());
        assert forall|j: int| 0 <= j < i + 1 implies imported_names_view(out)[j] == imported_names_view(*v)[j] by {
            if j < i {
                assert(out@[j] == before@[j]);
                assert(imported_names_view(before)[j] == imported_names_view(*v)[j]);
            }
        }
    }
    assert(imported_names_view(out) =~= imported_names_view(*v));
    out
}

/// Model of a `Vec<FnParam>`.
pub open spec fn fn_params_view(v: Vec<FnParam>) -> Seq<FnParamModel>
    decreases v,
{
    Seq::new(v@.len(), |i: int| if 0 <= i < v@.len() { fn_param_view(v@[i]) } else { arbitrary() })
}

pub fn copy_fn_params(v: &Vec<FnParam>) -> (r: Vec<FnParam>)
    ensures
        fn_params_view(r) == fn_params_view(*v),
    decreases v,
{
    let mut out: Vec<FnParam> = Vec::new();
    for i in 0..v.len()
        invariant
            out@.len() == i,
            forall|j: int| 0 <= j < i ==> fn_params_view(out)[j] == fn_params_view(*v)[j],
    {
        let ghost before = out;
        out.push(v[i].copy());
        assert forall|j: int| 0 <= j < i + 1 implies fn_params_view(out)[j] == fn_params_view(*v)[j] by {
            if j < i {
                assert(out@[j] == before@[j]);
                assert(fn_params_view(before)[j] == fn_params_view(*v)[j]);
            }
        }
    }
    assert(fn_params_view(out) =~= fn_params_view(*v));
    out
}

/// Model of an `Option<Type>`.
pub open spec fn opt_type_view(v: Option<Type>) -> Option<TypeModel> {
    match v {
        Some(x) => Some(type_view(x)),
        None => None,
    }
}

pub fn copy_opt_type(v: &Option<Type>) -> (r: Option<Type>)
    ensures
        opt_type_view(r) == opt_type_view(*v),
    decreases v,
{
    match v {
        Some(x) => Some(x.copy()),
        None => None,
    }
}

/// Model of a `Vec<Stmt>`.
pub open spec fn stmts_view(v: Vec<Stmt>) -> Seq<StmtModel>
    decreases v,
{
    Seq::new(v@.len(), |i: int| if 0 <= i < v@.len() { stmt_view(v@[i]) } else { arbitrary() })
}

pub fn copy_stmts(v: &Vec<Stmt>) -> (r: Vec<Stmt>)
    ensures
        stmts_view(r) == stmts_view(*v),
    decreases v,
{
    let mut out: Vec<Stmt> = Vec::new();
    for i in 0..v.len()
        invariant
            out@.len() == i,
            forall|j: int| 0 <= j < i ==> stmts_view(out)[j] == stmts_view(*v)[j],
    {
        let ghost before = out;
        out.push(v[i].copy());
        assert forall|j: int| 0 <= j < i + 1 implies stmts_view(out)[j] == stmts_view(*v)[j] by {
            if j < i {
                assert(out@[j] == before@[j]);
                assert(stmts_view(before)[j] == stmts_view(*v)[j]);
            }
        }
    }
    assert(stmts_view(out) =~= stmts_view(*v));
    out
}

/// Model of a `Vec<TypeParam>`.
pub open spec fn type_params_view(v: Vec<TypeParam>) -> Seq<TypeParamModel>
    decreases v,
{
    Seq::new(v@.len(), |i: int| if 0 <= i < v@.len() { type_param_view(v@[i]) } else { arbitrary() })
}

pub fn copy_type_params(v: &Vec<TypeParam>) -> (r: Vec<TypeParam>)
    ensures
        type_params_view(r) == type_params_view(*v),
    decreases v,
{
    let mut out: Vec<TypeParam> = Vec::new();
    for i in 0..v.len()
        invariant
            out@.len() == i,
            forall|j: int| 0 <= j < i ==> type_params_view(out)[j] == type_params_view(*v)[j],
    {
        let ghost before = out;
        out.push(v[i].copy());
        assert forall|j: int| 0 <= j < i + 1 implies type_params_view(out)[j] == type_params_view(*v)[j] by {
            if j < i {
                assert(out@[j] == before@[j]);
                assert(type_params_view(before)[j] == type_params_view(*v)[j]);
            }
        }
    }
    assert(type_params_view(out) =~= type_params_view(*v));
    out
}

/// Model of a `Vec<(Expr, Vec<Stmt>)>`.
pub open spec fn expr_stmts_list_view(v: Vec<(Expr, Vec<Stmt>)>) -> Seq<(ExprModel, Seq<StmtModel>)>
    decreases v,
{
    Seq::new(
        v@.len(),
        |i: int| if 0 <= i < v@.len() { (expr_view(v@[i].0), stmts_view(v@[i].1)) } else { arbitrary() },
    )
}

pub fn copy_expr_stmts_list(v: &Vec<(Expr, Vec<Stmt>)>) -> (r: Vec<(Expr, Vec<Stmt>)>)
    ensures
        expr_stmts_list_view(r) == expr_stmts_list_view(*v),
    decreases v,
{
    let mut out: Vec<(Expr, Vec<Stmt>)> = Vec::new();
    for i in 0..v.len()
        invariant
            out@.len() == i,
            forall|j: int| 0 <= j < i ==> expr_stmts_list_view(out)[j] == expr_stmts_list_view(*v)[j],
    {
        let ghost before = out;
        out.push((v[i].0.copy(), copy_stmts(&v[i].1)));
        assert forall|j: int| 0 <= j < i + 1 implies expr_stmts_list_view(out)[j] == expr_stmts_list_view(*v)[j] by {
            if j < i {
                assert(out@[j] == before@[j]);
                assert(expr_stmts_list_view(before)[j] == expr_stmts_list_view(*v)[j]);
            }
        }
    }
    assert(expr_stmts_list_view(out) =~= expr_stmts_list_view(*v));
    out
}

/// Model of an `Option<Vec<Stmt>>`.
pub open spec fn opt_stmts_view(v: Option<Vec<Stmt>>) -> Option<Seq<StmtModel>> {
    match v {
        Some(x) => Some(stmts_view(x)),
        None => None,
    }
}

pub fn copy_opt_stmts(v: &Option<Vec<Stmt>>) -> (r: Option<Vec<Stmt>>)
    ensures
        opt_stmts_view(r) == opt_stmts_view(*v),
    decreases v,
{
    match v {
        Some(x) => Some(copy_stmts(x)),
        None => None,
    }
}

/// Model of a `Vec<Decorator>`.
pub open spec fn decorators_view(v: Vec<Decorator>) -> Seq<DecoratorModel>
    decreases v,
{
    Seq::new(v@.len(), |i: int| if 0 <= i < v@.len() { decorator_view(v@[i]) } else { arbitrary() })
}

pub fn copy_decorators(v: &Vec<Decorator>) -> (r: Vec<Decorator>)
    ensures
        decorators_view(r) == decorators_view(*v),
    decreases v,
{
    let mut out: Vec<Decorator> = Vec::new();
    for i in 0..v.len()
        invariant
            out@.len() == i,
            forall|j: int| 0 <= j < i ==> decorators_view(out)[j] == decorators_view(*v)[j],
    {
        let ghost before = out;
        out.push(v[i].copy());
        assert forall|j: int| 0 <= j < i + 1 implies decorators_view(out)[j] == decorators_view(*v)[j] by {
            if j < i {
                assert(out@[j] == before@[j]);
                assert(decorators_view(before)[j] == decorators_view(*v)[j]);
            }
        }
    }
    assert(decorators_view(out) =~= decorators_view(*v));
    out
}

/// Model of an `Option<CaptureList>`.
pub open spec fn opt_capture_list_view(v: Option<CaptureList>) -> Option<CaptureListModel> {
    match v {
        Some(x) => Some(capture_list_view(x)),
        None => None,
    }
}

pub fn copy_opt_capture_list(v: &Option<CaptureList>) -> (r: Option<CaptureList>)
    ensures
        opt_capture_list_view(r) == opt_capture_list_view(*v),
    decreases v,
{
    match v {
        Some(x) => Some(x.copy()),
        None => None,
    }
}

/// Model of a `Vec<Method>`.
pub open spec fn methods_view(v: Vec<Method>) -> Seq<MethodModel>
    decreases v,
{
    Seq::new(v@.len(), |i: int| if 0 <= i < v@.len() { method_view(v@[i]) } else { arbitrary() })
}

pub fn copy_methods(v: &Vec<Method>) -> (r: Vec<Method>)
    ensures
        methods_view(r) == methods_view(*v),
    decreases v,
{
    let mut out: Vec<Method> = Vec::new();
    for i in 0..v.len()
        invariant
            out@.len() == i,
            forall|j: int| 0 <= j < i ==> methods_view(out)[j] == methods_view(*v)[j],
    {
        let ghost before = out;
        out.push(v[i].copy());
        assert forall|j: int| 0 <= j < i + 1 implies methods_view(out)[j] == methods_view(*v)[j] by {
            if j < i {
                assert(out@[j] == before@[j]);
                assert(methods_view(before)[j] == methods_view(*v)[j]);
            }
        }
    }
    assert(methods_view(out) =~= methods_view(*v));
    out
}

/// Model of a `Vec<WithItem>`.
pub open spec fn with_items_view(v: Vec<WithItem>) -> Seq<WithItemModel>
    decreases v,
{
    Seq::new(v@.len(), |i: int| if 0 <= i < v@.len() { with_item_view(v@[i]) } else { arbitrary() })
}

pub fn copy_with_items(v: &Vec<WithItem>) -> (r: Vec<WithItem>)
    ensures
        with_items_view(r) == with_items_view(*v),
    decreases v,
{
    let mut out: Vec<WithItem> = Vec::new();
    for i in 0..v.len()
        invariant
            out@.len() == i,
            forall|j: int| 0 <= j < i ==> with_items_view(out)[j] == with_items_view(*v)[j],
    {
        let ghost before = out;
        out.push(v[i].copy());
        assert forall|j: int| 0 <= j < i + 1 implies with_items_view(out)[j] == with_items_view(*v)[j] by {
            if j < i {
                assert(out@[j] == before@[j]);
                assert(with_items_view(before)[j] == with_items_view(*v)[j]);
            }
        }
    }
    assert(with_items_view(out) =~= with_items_view(*v));
    out
}

/// Model of an `Option<(Option<String>, Vec<Stmt>)>`.
pub open spec fn opt_opt_string_stmts_view(
    v: Option<(Option<String>, Vec<Stmt>)>
) -> Option<(Option<Seq<char>>, Seq<StmtModel>)> {
    match v {
        Some(x) => Some((match x.0 { Some(x) => Some(x@), None => None }, stmts_view(x.1))),
        None => None,
    }
}

pub fn copy_opt_opt_string_stmts(
    v: &Option<(Option<String>, Vec<Stmt>)>
) -> (r: Option<(Option<String>, Vec<Stmt>)>)
    ensures
        opt_opt_string_stmts_view(r) == opt_opt_string_stmts_view(*v),
    decreases v,
{
    match v {
        Some(x) => Some((copy_opt_string(&x.0), copy_stmts(&x.1))),
        None => None,
    }
}

pub fn copy_opt_arg_conventions(v: &Vec<Option<ArgConvention>>) -> (r: Vec<Option<ArgConvention>>)
    ensures
        r@ == v@,
{
    let mut out: Vec<Option<ArgConvention>> = Vec::new();
    for i in 0..v.len()
        invariant
            out@ == v@.take(i as int),
    {
        assert(v@.take(i as int + 1) =~= v@.take(i as int).push(v@[i as int]));
        out.push(v[i]);
    }
    assert(v@.take(v@.len() as int) =~= v@);
    out
}

pub fn same_opt_arg_conventions(a: &Vec<Option<ArgConvention>>, b: &Vec<Option<ArgConvention>>) -> (r: bool)
    ensures
        r == (a@ == b@),
{
    if a.len() != b.len() {
        return false;
    }
    for i in 0..a.len()
        invariant
            a@.len() == b@.len(),
            forall|j: int| 0 <= j < i ==> a@[j] == b@[j],
    {
        if a[i] != b[i] {
            return false;
        }
    }
    assert(a@ =~= b@);
    true
}

/// Model of a `Vec<TStringPart>`.
pub open spec fn tstring_parts_view(v: Vec<TStringPart>) -> Seq<TStringPartModel>
    decreases v,
{
    Seq::new(v@.len(), |i: int| if 0 <= i < v@.len() { tstring_part_view(v@[i]) } else { arbitrary() })
}

impl Dtype {
    /// Whether the lanes are floating point.
    pub fn is_float(self) -> (r: bool)
        ensures
            r == dtype_is_float(self),
    {
        match self {
            Dtype::Float32 | Dtype::Float64 => true,
            _ => false,
        }
    }

    /// The lower-case name behind `DType.`.
    pub fn name(self) -> (r: &'static str)
        ensures
            r@ == dtype_name(self),
    {
        match self {
            Dtype::Bool => "bool",
            Dtype::Int => "int",
            Dtype::Int8 => "int8",
            Dtype::Int16 => "int16",
            Dtype::Int32 => "int32",
            Dtype::Int64 => "int64",
            Dtype::UInt8 => "uint8",
            Dtype::UInt16 => "uint16",
            Dtype::UInt32 => "uint32",
            Dtype::UInt64 => "uint64",
            Dtype::Float32 => "float32",
            Dtype::Float64 => "float64",
        }
    }

    /// The element type a lower-case name denotes.
    pub fn from_name(name: &str) -> (r: Option<Dtype>)
        ensures
            match r {
                Some(dtype) => dtype_name(dtype) == name@,
                None => forall|dtype: Dtype| dtype_name(dtype) != name@,
            },
    {
        if str_eq(name, "bool") {
            Some(Dtype::Bool)
        } else if str_eq(name, "int") {
            Some(Dtype::Int)
        } else if str_eq(name, "int8") {
            Some(Dtype::Int8)
        } else if str_eq(name, "int16") {
            Some(Dtype::Int16)
        } else if str_eq(name, "int32") {
            Some(Dtype::Int32)
        } else if str_eq(name, "int64") {
            Some(Dtype::Int64)
        } else if str_eq(name, "uint8") {
            Some(Dtype::UInt8)
        } else if str_eq(name, "uint16") {
            Some(Dtype::UInt16)
        } else if str_eq(name, "uint32") {
            Some(Dtype::UInt32)
        } else if str_eq(name, "uint64") {
            Some(Dtype::UInt64)
        } else if str_eq(name, "float32") {
            Some(Dtype::Float32)
        } else if str_eq(name, "float64") {
            Some(Dtype::Float64)
        } else {
            None
        }
    }

    /// The name of the one-lane type, where it has one.
    pub fn scalar_alias(self) -> (r: Option<&'static str>)
        ensures
            match r {
                Some(name) => dtype_scalar_alias(self) == Some(name@),
                None => dtype_scalar_alias(self) is None,
            },
    {
        match self {
            Dtype::Bool => None,
            Dtype::Int => Some("Int"),
            Dtype::Int8 => Some("Int8"),
            Dtype::Int16 => Some("Int16"),
            Dtype::Int32 => Some("Int32"),
            Dtype::Int64 => Some("Int64"),
            Dtype::UInt8 => Some("UInt8"),
            Dtype::UInt16 => Some("UInt16"),
            Dtype::UInt32 => Some("UInt32"),
            Dtype::UInt64 => Some("UInt64"),
            Dtype::Float32 => Some("Float32"),
            Dtype::Float64 => Some("Float64"),
        }
    }
}

pub open spec fn dtype_is_float(dtype: Dtype) -> bool {
    dtype == Dtype::Float32 || dtype == Dtype::Float64
}

pub open spec fn dtype_name(dtype: Dtype) -> Seq<char> {
    match dtype {
        Dtype::Bool => "bool"@,
        Dtype::Int => "int"@,
        Dtype::Int8 => "int8"@,
        Dtype::Int16 => "int16"@,
        Dtype::Int32 => "int32"@,
        Dtype::Int64 => "int64"@,
        Dtype::UInt8 => "uint8"@,
        Dtype::UInt16 => "uint16"@,
        Dtype::UInt32 => "uint32"@,
        Dtype::UInt64 => "uint64"@,
        Dtype::Float32 => "float32"@,
        Dtype::Float64 => "float64"@,
    }
}

pub open spec fn dtype_scalar_alias(dtype: Dtype) -> Option<Seq<char>> {
    match dtype {
        Dtype::Bool => None,
        Dtype::Int => Some("Int"@),
        Dtype::Int8 => Some("Int8"@),
        Dtype::Int16 => Some("Int16"@),
        Dtype::Int32 => Some("Int32"@),
        Dtype::Int64 => Some("Int64"@),
        Dtype::UInt8 => Some("UInt8"@),
        Dtype::UInt16 => Some("UInt16"@),
        Dtype::UInt32 => Some("UInt32"@),
        Dtype::UInt64 => Some("UInt64"@),
        Dtype::Float32 => Some("Float32"@),
        Dtype::Float64 => Some("Float64"@),
    }
}

/// The method that an operator dispatches to on a nominal operand.
pub open spec fn operator_method(op: InfixOp) -> Option<Seq<char>> {
    match op {
        InfixOp::Add => Some("__add__"@),
        InfixOp::Sub => Some("__sub__"@),
        InfixOp::Mul => Some("__mul__"@),
        InfixOp::Div => Some("__truediv__"@),
        InfixOp::FloorDiv => Some("__floordiv__"@),
        InfixOp::Mod => Some("__mod__"@),
        InfixOp::Pow => Some("__pow__"@),
        InfixOp::MatMul => Some("__matmul__"@),
        InfixOp::Shl => Some("__lshift__"@),
        InfixOp::Shr => Some("__rshift__"@),
        InfixOp::BitAnd => Some("__and__"@),
        InfixOp::BitOr => Some("__or__"@),
        InfixOp::BitXor => Some("__xor__"@),
        InfixOp::Lt => Some("__lt__"@),
        InfixOp::Gt => Some("__gt__"@),
        InfixOp::Le => Some("__le__"@),
        InfixOp::Ge => Some("__ge__"@),
        InfixOp::Eq => Some("__eq__"@),
        InfixOp::Ne => Some("__ne__"@),
        InfixOp::In => Some("__contains__"@),
        InfixOp::NotIn => Some("__contains__"@),
        InfixOp::And => None,
        InfixOp::Or => None,
    }
}

impl InfixOp {
    /// The method that the operator dispatches to on a nominal operand.
    pub fn dunder(self) -> (r: Option<&'static str>)
        ensures
            match r {
                Some(name) => operator_method(self) == Some(name@),
                None => operator_method(self) is None,
            },
    {
        match self {
            InfixOp::Add => Some("__add__"),
            InfixOp::Sub => Some("__sub__"),
            InfixOp::Mul => Some("__mul__"),
            InfixOp::Div => Some("__truediv__"),
            InfixOp::FloorDiv => Some("__floordiv__"),
            InfixOp::Mod => Some("__mod__"),
            InfixOp::Pow => Some("__pow__"),
            InfixOp::MatMul => Some("__matmul__"),
            InfixOp::Shl => Some("__lshift__"),
            InfixOp::Shr => Some("__rshift__"),
            InfixOp::BitAnd => Some("__and__"),
            InfixOp::BitOr => Some("__or__"),
            InfixOp::BitXor => Some("__xor__"),
            InfixOp::Lt => Some("__lt__"),
            InfixOp::Gt => Some("__gt__"),
            InfixOp::Le => Some("__le__"),
            InfixOp::Ge => Some("__ge__"),
            InfixOp::Eq => Some("__eq__"),
            InfixOp::Ne => Some("__ne__"),
            InfixOp::In => Some("__contains__"),
            InfixOp::NotIn => Some("__contains__"),
            InfixOp::And => None,
            InfixOp::Or => None,
        }
    }
}

} // verus!
