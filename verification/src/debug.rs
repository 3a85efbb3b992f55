//! Diagnostic forms of types, values and expressions, in the notation of `{:?}`: names
//! of variants and fields, with texts quoted.

use crate::ast::{
    ArgConvention, Dtype, Expr, ExprKind, ExprKindModel, ExprModel, InfixOp, KwArg, KwArgModel,
    ParamArg, ParamArgModel, PlainArg, PlainArgModel, PrefixOp, Type, TypeModel, exprs_view,
    kw_args_view, opt_boxed_expr_view, source_args_view,
};
use crate::ct::{CtExpr, CtExprModel, CtValue, CtValueModel, opt_ct_expr_view};
use crate::data::{opt_string_view, strings_view};
use crate::literal::{IntLiteral, IntLiteralModel, literal_value};
use crate::origin::{
    CallableEnvironment, CallableEnvironmentModel, CaptureAccess, CaptureOrigin, CaptureOriginModel,
    CaptureOriginSet, CaptureOriginSetModel, CaptureSetParamId, Mutability, Origin, OriginModel,
    OriginParamId, OriginPlace, OriginPlaceModel, OriginSeg, OriginSegModel, OwnerId, PointerOrigin,
    PointerOriginModel, RefSig, RefSigModel, RefTy, RefTyModel, SigMutability, SigOrigin,
    SigOriginModel, capture_origins_view, opt_boxed_ref_sig_view, opt_ref_sig_view,
    opt_ref_sigs_view, origin_segs_view, origins_view, sig_origins_view,
};
use crate::text::{
    cat3, dec, dec_int, dec_text, dec_text_i64, dec_text_usize, join, join_push, quoted,
    quoted_text,
};
use crate::types::{
    DependentType, DependentTypeModel, ParamDecl, ParamDeclModel, Ty, TyArg, TyArgModel, TyModel,
    opt_boxed_ty_view, param_decls_view, string_tys_view, ty_args_view, tys_view,
};
use vstd::prelude::*;

verus! {

/// The diagnostic form of a truth value.
pub open spec fn bool_debug(b: bool) -> Seq<char> {
    if b { "true"@ } else { "false"@ }
}

fn debug_bool(b: bool) -> (r: &'static str)
    ensures
        r@ == bool_debug(b),
{
    if b { "true" } else { "false" }
}

/// The diagnostic form of an integer literal: its number.
pub open spec fn int_literal_debug(l: IntLiteralModel) -> Seq<char> {
    "IntLiteral("@ + dec_int(literal_value(l)) + ")"@
}

fn debug_int_literal(l: &IntLiteral) -> (r: String)
    ensures
        r@ == int_literal_debug(l@),
{
    cat3("IntLiteral(", &l.text(), ")")
}

/// The name of an element type, for messages.
pub open spec fn dtype_debug(dtype: Dtype) -> Seq<char> {
    match dtype {
        Dtype::Bool => "Bool"@,
        Dtype::Int => "Int"@,
        Dtype::Int8 => "Int8"@,
        Dtype::Int16 => "Int16"@,
        Dtype::Int32 => "Int32"@,
        Dtype::Int64 => "Int64"@,
        Dtype::UInt8 => "UInt8"@,
        Dtype::UInt16 => "UInt16"@,
        Dtype::UInt32 => "UInt32"@,
        Dtype::UInt64 => "UInt64"@,
        Dtype::Float32 => "Float32"@,
        Dtype::Float64 => "Float64"@,
    }
}

/// The name of an element type, for messages.
pub fn debug_of_dtype(dtype: Dtype) -> (r: &'static str)
    ensures
        r@ == dtype_debug(dtype),
{
    match dtype {
        Dtype::Bool => "Bool",
        Dtype::Int => "Int",
        Dtype::Int8 => "Int8",
        Dtype::Int16 => "Int16",
        Dtype::Int32 => "Int32",
        Dtype::Int64 => "Int64",
        Dtype::UInt8 => "UInt8",
        Dtype::UInt16 => "UInt16",
        Dtype::UInt32 => "UInt32",
        Dtype::UInt64 => "UInt64",
        Dtype::Float32 => "Float32",
        Dtype::Float64 => "Float64",
    }
}

/// The name of an operator, for messages.
pub open spec fn operator_name(op: InfixOp) -> Seq<char> {
    match op {
        InfixOp::Add => "Add"@,
        InfixOp::Sub => "Sub"@,
        InfixOp::Mul => "Mul"@,
        InfixOp::Div => "Div"@,
        InfixOp::FloorDiv => "FloorDiv"@,
        InfixOp::Mod => "Mod"@,
        InfixOp::Pow => "Pow"@,
        InfixOp::MatMul => "MatMul"@,
        InfixOp::Shl => "Shl"@,
        InfixOp::Shr => "Shr"@,
        InfixOp::BitAnd => "BitAnd"@,
        InfixOp::BitOr => "BitOr"@,
        InfixOp::BitXor => "BitXor"@,
        InfixOp::Lt => "Lt"@,
        InfixOp::Gt => "Gt"@,
        InfixOp::Le => "Le"@,
        InfixOp::Ge => "Ge"@,
        InfixOp::Eq => "Eq"@,
        InfixOp::Ne => "Ne"@,
        InfixOp::And => "And"@,
        InfixOp::Or => "Or"@,
        InfixOp::In => "In"@,
        InfixOp::NotIn => "NotIn"@,
    }
}

/// The name of an operator, for messages.
pub fn name_of_operator(op: InfixOp) -> (r: &'static str)
    ensures
        r@ == operator_name(op),
{
    match op {
        InfixOp::Add => "Add",
        InfixOp::Sub => "Sub",
        InfixOp::Mul => "Mul",
        InfixOp::Div => "Div",
        InfixOp::FloorDiv => "FloorDiv",
        InfixOp::Mod => "Mod",
        InfixOp::Pow => "Pow",
        InfixOp::MatMul => "MatMul",
        InfixOp::Shl => "Shl",
        InfixOp::Shr => "Shr",
        InfixOp::BitAnd => "BitAnd",
        InfixOp::BitOr => "BitOr",
        InfixOp::BitXor => "BitXor",
        InfixOp::Lt => "Lt",
        InfixOp::Gt => "Gt",
        InfixOp::Le => "Le",
        InfixOp::Ge => "Ge",
        InfixOp::Eq => "Eq",
        InfixOp::Ne => "Ne",
        InfixOp::And => "And",
        InfixOp::Or => "Or",
        InfixOp::In => "In",
        InfixOp::NotIn => "NotIn",
    }
}

/// The diagnostic form of a [`Ty`].
pub open spec fn ty_debug(x: TyModel) -> Seq<char>
    decreases x,
{
    match x {
        TyModel::Int => "Int"@,
        TyModel::UInt => "UInt"@,
        TyModel::IntLiteral => "IntLiteral"@,
        TyModel::FloatLiteral => "FloatLiteral"@,
        TyModel::Float64 => "Float64"@,
        TyModel::Bool => "Bool"@,
        TyModel::StringLiteral => "StringLiteral"@,
        TyModel::NoneType => "None"@,
        TyModel::Error => "Error"@,
        TyModel::Never => "Never"@,
        TyModel::Infer => "Infer"@,
        TyModel::Dtype => "Dtype"@,
        TyModel::SelfType => "SelfType"@,
        TyModel::Simd { dtype, width } => "Simd { dtype: "@ + dtype_debug(dtype)
            + ", width: "@ + dec_int(width as int) + " }"@,
        TyModel::ComptimeList(a0) => "ComptimeList("@ + ty_debug(*a0) + ")"@,
        TyModel::VariadicPack(a0) => "VariadicPack("@ + ty_debug(*a0) + ")"@,
        TyModel::Tuple(a0) => "Tuple("@ + tys_debug(a0) + ")"@,
        TyModel::RuntimePack(a0) => "RuntimePack("@ + tys_debug(a0) + ")"@,
        TyModel::Variant(a0) => "Variant("@ + tys_debug(a0) + ")"@,
        TyModel::Overload(a0) => "Overload("@ + tys_debug(a0) + ")"@,
        TyModel::Struct(a0, a1) => "Struct("@ + quoted_text(a0) + ", "@ + ty_args_debug(a1) + ")"@,
        TyModel::Param { name, bounds, callable_bound } => "Param { name: "@ + quoted_text(name)
            + ", bounds: "@ + strings_debug(bounds)
            + ", callable_bound: "@ + opt_boxed_ty_debug(callable_bound) + " }"@,
        TyModel::Pointer { element, origin } => "Pointer { element: "@ + ty_debug(*element)
            + ", origin: "@ + pointer_origin_debug(origin) + " }"@,
        TyModel::Ref(a0) => "Ref("@ + ref_ty_debug(a0) + ")"@,
        TyModel::Assoc { base, name, args } => "Assoc { base: "@ + ty_debug(*base)
            + ", name: "@ + quoted_text(name)
            + ", args: "@ + ty_args_debug(args) + " }"@,
        TyModel::Dependent(a0) => "Dependent("@ + dependent_type_debug(a0) + ")"@,
        TyModel::Func {
            environment,
            params,
            names,
            ret,
            required,
            variadic,
            kw_variadic,
            positional_only,
            keyword_only,
            raises,
            error,
            conventions,
            ref_params,
            ref_return,
            transfers,
        } => "Func { environment: "@ + callable_environment_debug(environment)
            + ", params: "@ + tys_debug(params)
            + ", names: "@ + strings_debug(names)
            + ", ret: "@ + ty_debug(*ret)
            + ", required: "@ + bools_debug(required)
            + ", variadic: "@ + opt_boxed_ty_debug(variadic)
            + ", kw_variadic: "@ + opt_boxed_ty_debug(kw_variadic)
            + ", positional_only: "@ + opt_usize_debug(positional_only)
            + ", keyword_only: "@ + opt_usize_debug(keyword_only)
            + ", raises: "@ + bool_debug(raises)
            + ", error: "@ + opt_boxed_ty_debug(error)
            + ", conventions: "@ + opt_arg_conventions_debug(conventions)
            + ", ref_params: "@ + opt_ref_sigs_debug(ref_params)
            + ", ref_return: "@ + opt_boxed_ref_sig_debug(ref_return)
            + ", transfers: "@ + usizes_debug(transfers) + " }"@,
        TyModel::GenericFunc {
            environment,
            decls,
            params,
            names,
            ret,
            required,
            variadic,
            kw_variadic,
            positional_only,
            keyword_only,
            raises,
            error,
            conventions,
            ref_params,
            ref_return,
            transfers,
        } => "GenericFunc { environment: "@ + callable_environment_debug(environment)
            + ", decls: "@ + param_decls_debug(decls)
            + ", params: "@ + tys_debug(params)
            + ", names: "@ + strings_debug(names)
            + ", ret: "@ + ty_debug(*ret)
            + ", required: "@ + bools_debug(required)
            + ", variadic: "@ + opt_boxed_ty_debug(variadic)
            + ", kw_variadic: "@ + opt_boxed_ty_debug(kw_variadic)
            + ", positional_only: "@ + opt_usize_debug(positional_only)
            + ", keyword_only: "@ + opt_usize_debug(keyword_only)
            + ", raises: "@ + bool_debug(raises)
            + ", error: "@ + opt_boxed_ty_debug(error)
            + ", conventions: "@ + opt_arg_conventions_debug(conventions)
            + ", ref_params: "@ + opt_ref_sigs_debug(ref_params)
            + ", ref_return: "@ + opt_boxed_ref_sig_debug(ref_return)
            + ", transfers: "@ + usizes_debug(transfers) + " }"@,
    }
}

/// The diagnostic form of a [`Ty`].
pub fn debug_ty(x: &Ty) -> (r: String)
    ensures
        r@ == ty_debug(x@),
    decreases x,
{
    match x {
        Ty::Int => "Int".to_owned(),
        Ty::UInt => "UInt".to_owned(),
        Ty::IntLiteral => "IntLiteral".to_owned(),
        Ty::FloatLiteral => "FloatLiteral".to_owned(),
        Ty::Float64 => "Float64".to_owned(),
        Ty::Bool => "Bool".to_owned(),
        Ty::StringLiteral => "StringLiteral".to_owned(),
        Ty::NoneType => "None".to_owned(),
        Ty::Error => "Error".to_owned(),
        Ty::Never => "Never".to_owned(),
        Ty::Infer => "Infer".to_owned(),
        Ty::Dtype => "Dtype".to_owned(),
        Ty::SelfType => "SelfType".to_owned(),
        Ty::Simd { dtype, width } => {
            let mut s: String = "Simd { dtype: ".to_owned();
            s.append(debug_of_dtype(*dtype));
            s.append(", width: ");
            s.append(&dec_text_i64(*width));
            s.append(" }");
            s
        },
        Ty::ComptimeList(a0) => {
            let mut s: String = "ComptimeList(".to_owned();
            s.append(&debug_ty(a0));
            s.append(")");
            s
        },
        Ty::VariadicPack(a0) => {
            let mut s: String = "VariadicPack(".to_owned();
            s.append(&debug_ty(a0));
            s.append(")");
            s
        },
        Ty::Tuple(a0) => {
            let mut s: String = "Tuple(".to_owned();
            s.append(&debug_tys(a0));
            s.append(")");
            s
        },
        Ty::RuntimePack(a0) => {
            let mut s: String = "RuntimePack(".to_owned();
            s.append(&debug_tys(a0));
            s.append(")");
            s
        },
        Ty::Variant(a0) => {
            let mut s: String = "Variant(".to_owned();
            s.append(&debug_tys(a0));
            s.append(")");
            s
        },
        Ty::Overload(a0) => {
            let mut s: String = "Overload(".to_owned();
            s.append(&debug_tys(a0));
            s.append(")");
            s
        },
        Ty::Struct(a0, a1) => {
            let mut s: String = "Struct(".to_owned();
            s.append(&quoted(a0));
            s.append(", ");
            s.append(&debug_ty_args(a1));
            s.append(")");
            s
        },
        Ty::Param { name, bounds, callable_bound } => {
            let mut s: String = "Param { name: ".to_owned();
            s.append(&quoted(name));
            s.append(", bounds: ");
            s.append(&debug_strings(bounds));
            s.append(", callable_bound: ");
            s.append(&debug_opt_boxed_ty(callable_bound));
            s.append(" }");
            s
        },
        Ty::Pointer { element, origin } => {
            let mut s: String = "Pointer { element: ".to_owned();
            s.append(&debug_ty(element));
            s.append(", origin: ");
            s.append(&debug_pointer_origin(origin));
            s.append(" }");
            s
        },
        Ty::Ref(a0) => {
            let mut s: String = "Ref(".to_owned();
            s.append(&debug_ref_ty(a0));
            s.append(")");
            s
        },
        Ty::Assoc { base, name, args } => {
            let mut s: String = "Assoc { base: ".to_owned();
            s.append(&debug_ty(base));
            s.append(", name: ");
            s.append(&quoted(name));
            s.append(", args: ");
            s.append(&debug_ty_args(args));
            s.append(" }");
            s
        },
        Ty::Dependent(a0) => {
            let mut s: String = "Dependent(".to_owned();
            s.append(&debug_dependent_type(a0));
            s.append(")");
            s
        },
        Ty::Func {
            environment,
            params,
            names,
            ret,
            required,
            variadic,
            kw_variadic,
            positional_only,
            keyword_only,
            raises,
            error,
            conventions,
            ref_params,
            ref_return,
            transfers,
        } => {
            let mut s: String = "Func { environment: ".to_owned();
            s.append(&debug_callable_environment(environment));
            s.append(", params: ");
            s.append(&debug_tys(params));
            s.append(", names: ");
            s.append(&debug_strings(names));
            s.append(", ret: ");
            s.append(&debug_ty(ret));
            s.append(", required: ");
            s.append(&debug_bools(required));
            s.append(", variadic: ");
            s.append(&debug_opt_boxed_ty(variadic));
            s.append(", kw_variadic: ");
            s.append(&debug_opt_boxed_ty(kw_variadic));
            s.append(", positional_only: ");
            s.append(&debug_opt_usize(positional_only));
            s.append(", keyword_only: ");
            s.append(&debug_opt_usize(keyword_only));
            s.append(", raises: ");
            s.append(debug_bool(*raises));
            s.append(", error: ");
            s.append(&debug_opt_boxed_ty(error));
            s.append(", conventions: ");
            s.append(&debug_opt_arg_conventions(conventions));
            s.append(", ref_params: ");
            s.append(&debug_opt_ref_sigs(ref_params));
            s.append(", ref_return: ");
            s.append(&debug_opt_boxed_ref_sig(ref_return));
            s.append(", transfers: ");
            s.append(&debug_usizes(transfers));
            s.append(" }");
            s
        },
        Ty::GenericFunc {
            environment,
            decls,
            params,
            names,
            ret,
            required,
            variadic,
            kw_variadic,
            positional_only,
            keyword_only,
            raises,
            error,
            conventions,
            ref_params,
            ref_return,
            transfers,
        } => {
            let mut s: String = "GenericFunc { environment: ".to_owned();
            s.append(&debug_callable_environment(environment));
            s.append(", decls: ");
            s.append(&debug_param_decls(decls));
            s.append(", params: ");
            s.append(&debug_tys(params));
            s.append(", names: ");
            s.append(&debug_strings(names));
            s.append(", ret: ");
            s.append(&debug_ty(ret));
            s.append(", required: ");
            s.append(&debug_bools(required));
            s.append(", variadic: ");
            s.append(&debug_opt_boxed_ty(variadic));
            s.append(", kw_variadic: ");
            s.append(&debug_opt_boxed_ty(kw_variadic));
            s.append(", positional_only: ");
            s.append(&debug_opt_usize(positional_only));
            s.append(", keyword_only: ");
            s.append(&debug_opt_usize(keyword_only));
            s.append(", raises: ");
            s.append(debug_bool(*raises));
            s.append(", error: ");
            s.append(&debug_opt_boxed_ty(error));
            s.append(", conventions: ");
            s.append(&debug_opt_arg_conventions(conventions));
            s.append(", ref_params: ");
            s.append(&debug_opt_ref_sigs(ref_params));
            s.append(", ref_return: ");
            s.append(&debug_opt_boxed_ref_sig(ref_return));
            s.append(", transfers: ");
            s.append(&debug_usizes(transfers));
            s.append(" }");
            s
        },
    }
}

/// The diagnostic form of each element of a `Vec<Ty>`.
pub open spec fn tys_debugs(v: Seq<TyModel>) -> Seq<Seq<char>>
    decreases v, 0int,
{
    Seq::new(v.len(), |i: int| if 0 <= i < v.len() { ty_debug(v[i]) } else { arbitrary() })
}

/// The diagnostic form of a `Vec<Ty>`.
pub open spec fn tys_debug(v: Seq<TyModel>) -> Seq<char>
    decreases v, 1int,
{
    "["@ + join(tys_debugs(v), ", "@) + "]"@
}

fn debug_one_of_tys(v: &Vec<Ty>, i: usize) -> (r: String)
    requires
        i < v@.len(),
    ensures
        r@ == tys_debugs(tys_view(*v))[i as int],
    decreases v, 0int,
{
    assert(tys_view(*v)[i as int] == v@[i as int]@);
    debug_ty(&v[i])
}

fn debug_tys(v: &Vec<Ty>) -> (r: String)
    ensures
        r@ == tys_debug(tys_view(*v)),
    decreases v, 1int,
{
    let mut inner: String = String::new();
    let ghost model = tys_view(*v);
    let ghost texts = tys_debugs(model);
    for i in 0..v.len()
        invariant
            model == tys_view(*v),
            texts == tys_debugs(model),
            inner@ == join(texts.take(i as int), ", "@),
    {
        assert(texts.take(i + 1) =~= texts.take(i as int).push(texts[i as int]));
        let part: String = debug_one_of_tys(v, i);
        assert(part@ == texts[i as int]);
        join_push(&mut inner, i == 0, ", ", &part, Ghost(texts.take(i as int)));
    }
    assert(texts.take(texts.len() as int) =~= texts);
    cat3("[", &inner, "]")
}

/// The diagnostic form of each element of a `Vec<TyArg>`.
pub open spec fn ty_args_debugs(v: Seq<TyArgModel>) -> Seq<Seq<char>>
    decreases v, 0int,
{
    Seq::new(v.len(), |i: int| if 0 <= i < v.len() { ty_arg_debug(v[i]) } else { arbitrary() })
}

/// The diagnostic form of a `Vec<TyArg>`.
pub open spec fn ty_args_debug(v: Seq<TyArgModel>) -> Seq<char>
    decreases v, 1int,
{
    "["@ + join(ty_args_debugs(v), ", "@) + "]"@
}

fn debug_one_of_ty_args(v: &Vec<TyArg>, i: usize) -> (r: String)
    requires
        i < v@.len(),
    ensures
        r@ == ty_args_debugs(ty_args_view(*v))[i as int],
    decreases v, 0int,
{
    assert(ty_args_view(*v)[i as int] == v@[i as int]@);
    debug_ty_arg(&v[i])
}

fn debug_ty_args(v: &Vec<TyArg>) -> (r: String)
    ensures
        r@ == ty_args_debug(ty_args_view(*v)),
    decreases v, 1int,
{
    let mut inner: String = String::new();
    let ghost model = ty_args_view(*v);
    let ghost texts = ty_args_debugs(model);
    for i in 0..v.len()
        invariant
            model == ty_args_view(*v),
            texts == ty_args_debugs(model),
            inner@ == join(texts.take(i as int), ", "@),
    {
        assert(texts.take(i + 1) =~= texts.take(i as int).push(texts[i as int]));
        let part: String = debug_one_of_ty_args(v, i);
        assert(part@ == texts[i as int]);
        join_push(&mut inner, i == 0, ", ", &part, Ghost(texts.take(i as int)));
    }
    assert(texts.take(texts.len() as int) =~= texts);
    cat3("[", &inner, "]")
}

/// The diagnostic form of a [`TyArg`].
pub open spec fn ty_arg_debug(x: TyArgModel) -> Seq<char>
    decreases x,
{
    match x {
        TyArgModel::Ty(a0) => "Ty("@ + ty_debug(a0) + ")"@,
        TyArgModel::Val(a0) => "Val("@ + ct_value_debug(a0) + ")"@,
        TyArgModel::Origin(a0) => "Origin("@ + origin_debug(a0) + ")"@,
    }
}

/// The diagnostic form of a [`TyArg`].
pub fn debug_ty_arg(x: &TyArg) -> (r: String)
    ensures
        r@ == ty_arg_debug(x@),
    decreases x,
{
    match x {
        TyArg::Ty(a0) => {
            let mut s: String = "Ty(".to_owned();
            s.append(&debug_ty(a0));
            s.append(")");
            s
        },
        TyArg::Val(a0) => {
            let mut s: String = "Val(".to_owned();
            s.append(&debug_ct_value(a0));
            s.append(")");
            s
        },
        TyArg::Origin(a0) => {
            let mut s: String = "Origin(".to_owned();
            s.append(&debug_origin(a0));
            s.append(")");
            s
        },
    }
}

/// The diagnostic form of a [`CtValue`].
pub open spec fn ct_value_debug(x: CtValueModel) -> Seq<char>
    decreases x,
{
    match x {
        CtValueModel::Int(a0) => "Int("@ + dec_int(a0 as int) + ")"@,
        CtValueModel::UInt(a0) => "UInt("@ + dec(a0 as nat) + ")"@,
        CtValueModel::IntLiteral(a0) => "IntLiteral("@ + int_literal_debug(a0) + ")"@,
        CtValueModel::Bool(a0) => "Bool("@ + bool_debug(a0) + ")"@,
        CtValueModel::Str(a0) => "Str("@ + quoted_text(a0) + ")"@,
        CtValueModel::Param(a0) => "Param("@ + quoted_text(a0) + ")"@,
    }
}

/// The diagnostic form of a [`CtValue`].
pub fn debug_ct_value(x: &CtValue) -> (r: String)
    ensures
        r@ == ct_value_debug(x@),
    decreases x,
{
    match x {
        CtValue::Int(a0) => {
            let mut s: String = "Int(".to_owned();
            s.append(&dec_text_i64(*a0));
            s.append(")");
            s
        },
        CtValue::UInt(a0) => {
            let mut s: String = "UInt(".to_owned();
            s.append(&dec_text(*a0));
            s.append(")");
            s
        },
        CtValue::IntLiteral(a0) => {
            let mut s: String = "IntLiteral(".to_owned();
            s.append(&debug_int_literal(a0));
            s.append(")");
            s
        },
        CtValue::Bool(a0) => {
            let mut s: String = "Bool(".to_owned();
            s.append(debug_bool(*a0));
            s.append(")");
            s
        },
        CtValue::Str(a0) => {
            let mut s: String = "Str(".to_owned();
            s.append(&quoted(a0));
            s.append(")");
            s
        },
        CtValue::Param(a0) => {
            let mut s: String = "Param(".to_owned();
            s.append(&quoted(a0));
            s.append(")");
            s
        },
    }
}

/// The diagnostic form of a [`Origin`].
pub open spec fn origin_debug(x: OriginModel) -> Seq<char>
    decreases x,
{
    match x {
        OriginModel::Param(a0) => "Param("@ + origin_param_id_debug(a0) + ")"@,
        OriginModel::Place(a0) => "Place("@ + origin_place_debug(a0) + ")"@,
        OriginModel::Union(a0) => "Union("@ + origins_debug(a0) + ")"@,
        OriginModel::Static => "Static"@,
        OriginModel::Untracked { mutable } => "Untracked { mutable: "@ + bool_debug(mutable) + " }"@,
    }
}

/// The diagnostic form of a [`Origin`].
pub fn debug_origin(x: &Origin) -> (r: String)
    ensures
        r@ == origin_debug(x@),
    decreases x,
{
    match x {
        Origin::Param(a0) => {
            let mut s: String = "Param(".to_owned();
            s.append(&debug_origin_param_id(a0));
            s.append(")");
            s
        },
        Origin::Place(a0) => {
            let mut s: String = "Place(".to_owned();
            s.append(&debug_origin_place(a0));
            s.append(")");
            s
        },
        Origin::Union(a0) => {
            let mut s: String = "Union(".to_owned();
            s.append(&debug_origins(a0));
            s.append(")");
            s
        },
        Origin::Static => "Static".to_owned(),
        Origin::Untracked { mutable } => {
            let mut s: String = "Untracked { mutable: ".to_owned();
            s.append(debug_bool(*mutable));
            s.append(" }");
            s
        },
    }
}

/// The diagnostic form of a [`OriginParamId`].
pub open spec fn origin_param_id_debug(x: OriginParamId) -> Seq<char>
{
    "OriginParamId("@ + dec(x.0 as nat) + ")"@
}

/// The diagnostic form of a [`OriginParamId`].
pub fn debug_origin_param_id(x: &OriginParamId) -> (r: String)
    ensures
        r@ == origin_param_id_debug(*x),
{
    let mut s: String = "OriginParamId(".to_owned();
    s.append(&dec_text(x.0 as u64));
    s.append(")");
    s
}

/// The diagnostic form of a [`OriginPlace`].
pub open spec fn origin_place_debug(x: OriginPlaceModel) -> Seq<char>
    decreases x,
{
    "OriginPlace { root: "@ + owner_id_debug(x.root)
        + ", path: "@ + origin_segs_debug(x.path) + " }"@
}

/// The diagnostic form of a [`OriginPlace`].
pub fn debug_origin_place(x: &OriginPlace) -> (r: String)
    ensures
        r@ == origin_place_debug(x@),
    decreases x,
{
    let mut s: String = "OriginPlace { root: ".to_owned();
    s.append(&debug_owner_id(&x.root));
    s.append(", path: ");
    s.append(&debug_origin_segs(&x.path));
    s.append(" }");
    s
}

/// The diagnostic form of a [`OwnerId`].
pub open spec fn owner_id_debug(x: OwnerId) -> Seq<char>
{
    "OwnerId("@ + dec(x.0 as nat) + ")"@
}

/// The diagnostic form of a [`OwnerId`].
pub fn debug_owner_id(x: &OwnerId) -> (r: String)
    ensures
        r@ == owner_id_debug(*x),
{
    let mut s: String = "OwnerId(".to_owned();
    s.append(&dec_text(x.0 as u64));
    s.append(")");
    s
}

/// The diagnostic form of each element of a `Vec<OriginSeg>`.
pub open spec fn origin_segs_debugs(v: Seq<OriginSegModel>) -> Seq<Seq<char>>
    decreases v, 0int,
{
    Seq::new(v.len(), |i: int| if 0 <= i < v.len() { origin_seg_debug(v[i]) } else { arbitrary() })
}

/// The diagnostic form of a `Vec<OriginSeg>`.
pub open spec fn origin_segs_debug(v: Seq<OriginSegModel>) -> Seq<char>
    decreases v, 1int,
{
    "["@ + join(origin_segs_debugs(v), ", "@) + "]"@
}

fn debug_one_of_origin_segs(v: &Vec<OriginSeg>, i: usize) -> (r: String)
    requires
        i < v@.len(),
    ensures
        r@ == origin_segs_debugs(origin_segs_view(*v))[i as int],
    decreases v, 0int,
{
    assert(origin_segs_view(*v)[i as int] == v@[i as int]@);
    debug_origin_seg(&v[i])
}

fn debug_origin_segs(v: &Vec<OriginSeg>) -> (r: String)
    ensures
        r@ == origin_segs_debug(origin_segs_view(*v)),
    decreases v, 1int,
{
    let mut inner: String = String::new();
    let ghost model = origin_segs_view(*v);
    let ghost texts = origin_segs_debugs(model);
    for i in 0..v.len()
        invariant
            model == origin_segs_view(*v),
            texts == origin_segs_debugs(model),
            inner@ == join(texts.take(i as int), ", "@),
    {
        assert(texts.take(i + 1) =~= texts.take(i as int).push(texts[i as int]));
        let part: String = debug_one_of_origin_segs(v, i);
        assert(part@ == texts[i as int]);
        join_push(&mut inner, i == 0, ", ", &part, Ghost(texts.take(i as int)));
    }
    assert(texts.take(texts.len() as int) =~= texts);
    cat3("[", &inner, "]")
}

/// The diagnostic form of a [`OriginSeg`].
pub open spec fn origin_seg_debug(x: OriginSegModel) -> Seq<char>
    decreases x,
{
    match x {
        OriginSegModel::Field(a0) => "Field("@ + quoted_text(a0) + ")"@,
        OriginSegModel::AnyIndex => "AnyIndex"@,
        OriginSegModel::Interior(a0) => "Interior("@ + quoted_text(a0) + ")"@,
        OriginSegModel::Subtree => "Subtree"@,
    }
}

/// The diagnostic form of a [`OriginSeg`].
pub fn debug_origin_seg(x: &OriginSeg) -> (r: String)
    ensures
        r@ == origin_seg_debug(x@),
    decreases x,
{
    match x {
        OriginSeg::Field(a0) => {
            let mut s: String = "Field(".to_owned();
            s.append(&quoted(a0));
            s.append(")");
            s
        },
        OriginSeg::AnyIndex => "AnyIndex".to_owned(),
        OriginSeg::Interior(a0) => {
            let mut s: String = "Interior(".to_owned();
            s.append(&quoted(a0));
            s.append(")");
            s
        },
        OriginSeg::Subtree => "Subtree".to_owned(),
    }
}

/// The diagnostic form of each element of a `Vec<Origin>`.
pub open spec fn origins_debugs(v: Seq<OriginModel>) -> Seq<Seq<char>>
    decreases v, 0int,
{
    Seq::new(v.len(), |i: int| if 0 <= i < v.len() { origin_debug(v[i]) } else { arbitrary() })
}

/// The diagnostic form of a `Vec<Origin>`.
pub open spec fn origins_debug(v: Seq<OriginModel>) -> Seq<char>
    decreases v, 1int,
{
    "["@ + join(origins_debugs(v), ", "@) + "]"@
}

fn debug_one_of_origins(v: &Vec<Origin>, i: usize) -> (r: String)
    requires
        i < v@.len(),
    ensures
        r@ == origins_debugs(origins_view(*v))[i as int],
    decreases v, 0int,
{
    assert(origins_view(*v)[i as int] == v@[i as int]@);
    debug_origin(&v[i])
}

fn debug_origins(v: &Vec<Origin>) -> (r: String)
    ensures
        r@ == origins_debug(origins_view(*v)),
    decreases v, 1int,
{
    let mut inner: String = String::new();
    let ghost model = origins_view(*v);
    let ghost texts = origins_debugs(model);
    for i in 0..v.len()
        invariant
            model == origins_view(*v),
            texts == origins_debugs(model),
            inner@ == join(texts.take(i as int), ", "@),
    {
        assert(texts.take(i + 1) =~= texts.take(i as int).push(texts[i as int]));
        let part: String = debug_one_of_origins(v, i);
        assert(part@ == texts[i as int]);
        join_push(&mut inner, i == 0, ", ", &part, Ghost(texts.take(i as int)));
    }
    assert(texts.take(texts.len() as int) =~= texts);
    cat3("[", &inner, "]")
}

/// The diagnostic form of each element of a `Vec<String>`.
pub open spec fn strings_debugs(v: Seq<Seq<char>>) -> Seq<Seq<char>>
{
    Seq::new(v.len(), |i: int| if 0 <= i < v.len() { quoted_text(v[i]) } else { arbitrary() })
}

/// The diagnostic form of a `Vec<String>`.
pub open spec fn strings_debug(v: Seq<Seq<char>>) -> Seq<char>
{
    "["@ + join(strings_debugs(v), ", "@) + "]"@
}

fn debug_strings(v: &Vec<String>) -> (r: String)
    ensures
        r@ == strings_debug(strings_view(*v)),
{
    let mut inner: String = String::new();
    let ghost model = strings_view(*v);
    let ghost texts = strings_debugs(model);
    for i in 0..v.len()
        invariant
            model == strings_view(*v),
            texts == strings_debugs(model),
            inner@ == join(texts.take(i as int), ", "@),
    {
        assert(texts.take(i + 1) =~= texts.take(i as int).push(texts[i as int]));
        let part: String = quoted(&v[i]);
        assert(part@ == texts[i as int]);
        join_push(&mut inner, i == 0, ", ", &part, Ghost(texts.take(i as int)));
    }
    assert(texts.take(texts.len() as int) =~= texts);
    cat3("[", &inner, "]")
}

/// The diagnostic form of an `Option<Box<Ty>>`.
pub open spec fn opt_boxed_ty_debug(v: Option<Box<TyModel>>) -> Seq<char>
    decreases v,
{
    match v {
        Some(x) => "Some("@ + ty_debug(*x) + ")"@,
        None => "None"@,
    }
}

fn debug_opt_boxed_ty(v: &Option<Box<Ty>>) -> (r: String)
    ensures
        r@ == opt_boxed_ty_debug(opt_boxed_ty_view(*v)),
    decreases v,
{
    match v {
        Some(x) => {
            let mut s: String = "Some(".to_owned();
            s.append(&debug_ty(x));
            s.append(")");
            s
        },
        None => "None".to_owned(),
    }
}

/// The diagnostic form of a [`PointerOrigin`].
pub open spec fn pointer_origin_debug(x: PointerOriginModel) -> Seq<char>
    decreases x,
{
    match x {
        PointerOriginModel::Legacy => "Legacy"@,
        PointerOriginModel::Place { place, mutable } => "Place { place: "@ + origin_place_debug(place)
            + ", mutable: "@ + bool_debug(mutable) + " }"@,
        PointerOriginModel::Param { id, mutability } => "Param { id: "@ + origin_param_id_debug(id)
            + ", mutability: "@ + mutability_debug(mutability) + " }"@,
        PointerOriginModel::Static => "Static"@,
        PointerOriginModel::Untracked { mutable } => "Untracked { mutable: "@ + bool_debug(mutable) + " }"@,
        PointerOriginModel::UnsafeAny { mutable } => "UnsafeAny { mutable: "@ + bool_debug(mutable) + " }"@,
    }
}

/// The diagnostic form of a [`PointerOrigin`].
pub fn debug_pointer_origin(x: &PointerOrigin) -> (r: String)
    ensures
        r@ == pointer_origin_debug(x@),
    decreases x,
{
    match x {
        PointerOrigin::Legacy => "Legacy".to_owned(),
        PointerOrigin::Place { place, mutable } => {
            let mut s: String = "Place { place: ".to_owned();
            s.append(&debug_origin_place(place));
            s.append(", mutable: ");
            s.append(debug_bool(*mutable));
            s.append(" }");
            s
        },
        PointerOrigin::Param { id, mutability } => {
            let mut s: String = "Param { id: ".to_owned();
            s.append(&debug_origin_param_id(id));
            s.append(", mutability: ");
            s.append(&debug_mutability(mutability));
            s.append(" }");
            s
        },
        PointerOrigin::Static => "Static".to_owned(),
        PointerOrigin::Untracked { mutable } => {
            let mut s: String = "Untracked { mutable: ".to_owned();
            s.append(debug_bool(*mutable));
            s.append(" }");
            s
        },
        PointerOrigin::UnsafeAny { mutable } => {
            let mut s: String = "UnsafeAny { mutable: ".to_owned();
            s.append(debug_bool(*mutable));
            s.append(" }");
            s
        },
    }
}

/// The diagnostic form of a [`Mutability`].
pub open spec fn mutability_debug(x: Mutability) -> Seq<char>
{
    match x {
        Mutability::Immutable => "Immutable"@,
        Mutability::Mutable => "Mutable"@,
        Mutability::Param(a0) => "Param("@ + origin_param_id_debug(a0) + ")"@,
    }
}

/// The diagnostic form of a [`Mutability`].
pub fn debug_mutability(x: &Mutability) -> (r: String)
    ensures
        r@ == mutability_debug(*x),
{
    match x {
        Mutability::Immutable => "Immutable".to_owned(),
        Mutability::Mutable => "Mutable".to_owned(),
        Mutability::Param(a0) => {
            let mut s: String = "Param(".to_owned();
            s.append(&debug_origin_param_id(a0));
            s.append(")");
            s
        },
    }
}

/// The diagnostic form of a [`RefTy`].
pub open spec fn ref_ty_debug(x: RefTyModel) -> Seq<char>
    decreases x,
{
    "RefTy { referent: "@ + ty_debug(*x.referent)
        + ", origin: "@ + origin_debug(x.origin)
        + ", mutability: "@ + mutability_debug(x.mutability) + " }"@
}

/// The diagnostic form of a [`RefTy`].
pub fn debug_ref_ty(x: &RefTy) -> (r: String)
    ensures
        r@ == ref_ty_debug(x@),
    decreases x,
{
    let mut s: String = "RefTy { referent: ".to_owned();
    s.append(&debug_ty(&x.referent));
    s.append(", origin: ");
    s.append(&debug_origin(&x.origin));
    s.append(", mutability: ");
    s.append(&debug_mutability(&x.mutability));
    s.append(" }");
    s
}

/// The diagnostic form of a [`DependentType`].
pub open spec fn dependent_type_debug(x: DependentTypeModel) -> Seq<char>
    decreases x,
{
    match x {
        DependentTypeModel::Indexed { elements, index } => "Indexed { elements: "@ + tys_debug(elements)
            + ", index: "@ + ct_expr_debug(index) + " }"@,
    }
}

/// The diagnostic form of a [`DependentType`].
pub fn debug_dependent_type(x: &DependentType) -> (r: String)
    ensures
        r@ == dependent_type_debug(x@),
    decreases x,
{
    match x {
        DependentType::Indexed { elements, index } => {
            let mut s: String = "Indexed { elements: ".to_owned();
            s.append(&debug_tys(elements));
            s.append(", index: ");
            s.append(&debug_ct_expr(index));
            s.append(" }");
            s
        },
    }
}

/// The diagnostic form of a [`CtExpr`].
pub open spec fn ct_expr_debug(x: CtExprModel) -> Seq<char>
    decreases x,
{
    match x {
        CtExprModel::Value(a0) => "Value("@ + ct_value_debug(a0) + ")"@,
        CtExprModel::Param(a0) => "Param("@ + quoted_text(a0) + ")"@,
        CtExprModel::Neg(a0) => "Neg("@ + ct_expr_debug(*a0) + ")"@,
        CtExprModel::Add(a0, a1) => "Add("@ + ct_expr_debug(*a0) + ", "@ + ct_expr_debug(*a1) + ")"@,
        CtExprModel::Sub(a0, a1) => "Sub("@ + ct_expr_debug(*a0) + ", "@ + ct_expr_debug(*a1) + ")"@,
        CtExprModel::Mul(a0, a1) => "Mul("@ + ct_expr_debug(*a0) + ", "@ + ct_expr_debug(*a1) + ")"@,
        CtExprModel::FloorDiv(a0, a1) => "FloorDiv("@ + ct_expr_debug(*a0) + ", "@ + ct_expr_debug(*a1) + ")"@,
        CtExprModel::Mod(a0, a1) => "Mod("@ + ct_expr_debug(*a0) + ", "@ + ct_expr_debug(*a1) + ")"@,
        CtExprModel::Pow(a0, a1) => "Pow("@ + ct_expr_debug(*a0) + ", "@ + ct_expr_debug(*a1) + ")"@,
    }
}

/// The diagnostic form of a [`CtExpr`].
pub fn debug_ct_expr(x: &CtExpr) -> (r: String)
    ensures
        r@ == ct_expr_debug(x@),
    decreases x,
{
    match x {
        CtExpr::Value(a0) => {
            let mut s: String = "Value(".to_owned();
            s.append(&debug_ct_value(a0));
            s.append(")");
            s
        },
        CtExpr::Param(a0) => {
            let mut s: String = "Param(".to_owned();
            s.append(&quoted(a0));
            s.append(")");
            s
        },
        CtExpr::Neg(a0) => {
            let mut s: String = "Neg(".to_owned();
            s.append(&debug_ct_expr(a0));
            s.append(")");
            s
        },
        CtExpr::Add(a0, a1) => {
            let mut s: String = "Add(".to_owned();
            s.append(&debug_ct_expr(a0));
            s.append(", ");
            s.append(&debug_ct_expr(a1));
            s.append(")");
            s
        },
        CtExpr::Sub(a0, a1) => {
            let mut s: String = "Sub(".to_owned();
            s.append(&debug_ct_expr(a0));
            s.append(", ");
            s.append(&debug_ct_expr(a1));
            s.append(")");
            s
        },
        CtExpr::Mul(a0, a1) => {
            let mut s: String = "Mul(".to_owned();
            s.append(&debug_ct_expr(a0));
            s.append(", ");
            s.append(&debug_ct_expr(a1));
            s.append(")");
            s
        },
        CtExpr::FloorDiv(a0, a1) => {
            let mut s: String = "FloorDiv(".to_owned();
            s.append(&debug_ct_expr(a0));
            s.append(", ");
            s.append(&debug_ct_expr(a1));
            s.append(")");
            s
        },
        CtExpr::Mod(a0, a1) => {
            let mut s: String = "Mod(".to_owned();
            s.append(&debug_ct_expr(a0));
            s.append(", ");
            s.append(&debug_ct_expr(a1));
            s.append(")");
            s
        },
        CtExpr::Pow(a0, a1) => {
            let mut s: String = "Pow(".to_owned();
            s.append(&debug_ct_expr(a0));
            s.append(", ");
            s.append(&debug_ct_expr(a1));
            s.append(")");
            s
        },
    }
}

/// The diagnostic form of a [`CallableEnvironment`].
pub open spec fn callable_environment_debug(x: CallableEnvironmentModel) -> Seq<char>
    decreases x,
{
    match x {
        CallableEnvironmentModel::Default => "Default"@,
        CallableEnvironmentModel::Thin => "Thin"@,
        CallableEnvironmentModel::Capturing(a0) => "Capturing("@ + capture_origin_set_debug(a0) + ")"@,
    }
}

/// The diagnostic form of a [`CallableEnvironment`].
pub fn debug_callable_environment(x: &CallableEnvironment) -> (r: String)
    ensures
        r@ == callable_environment_debug(x@),
    decreases x,
{
    match x {
        CallableEnvironment::Default => "Default".to_owned(),
        CallableEnvironment::Thin => "Thin".to_owned(),
        CallableEnvironment::Capturing(a0) => {
            let mut s: String = "Capturing(".to_owned();
            s.append(&debug_capture_origin_set(a0));
            s.append(")");
            s
        },
    }
}

/// The diagnostic form of a [`CaptureOriginSet`].
pub open spec fn capture_origin_set_debug(x: CaptureOriginSetModel) -> Seq<char>
    decreases x,
{
    match x {
        CaptureOriginSetModel::Infer => "Infer"@,
        CaptureOriginSetModel::Param(a0) => "Param("@ + capture_set_param_id_debug(a0) + ")"@,
        CaptureOriginSetModel::Concrete(a0) => "Concrete("@ + capture_origins_debug(a0) + ")"@,
    }
}

/// The diagnostic form of a [`CaptureOriginSet`].
pub fn debug_capture_origin_set(x: &CaptureOriginSet) -> (r: String)
    ensures
        r@ == capture_origin_set_debug(x@),
    decreases x,
{
    match x {
        CaptureOriginSet::Infer => "Infer".to_owned(),
        CaptureOriginSet::Param(a0) => {
            let mut s: String = "Param(".to_owned();
            s.append(&debug_capture_set_param_id(a0));
            s.append(")");
            s
        },
        CaptureOriginSet::Concrete(a0) => {
            let mut s: String = "Concrete(".to_owned();
            s.append(&debug_capture_origins(a0));
            s.append(")");
            s
        },
    }
}

/// The diagnostic form of a [`CaptureSetParamId`].
pub open spec fn capture_set_param_id_debug(x: CaptureSetParamId) -> Seq<char>
{
    "CaptureSetParamId("@ + dec(x.0 as nat) + ")"@
}

/// The diagnostic form of a [`CaptureSetParamId`].
pub fn debug_capture_set_param_id(x: &CaptureSetParamId) -> (r: String)
    ensures
        r@ == capture_set_param_id_debug(*x),
{
    let mut s: String = "CaptureSetParamId(".to_owned();
    s.append(&dec_text(x.0 as u64));
    s.append(")");
    s
}

/// The diagnostic form of each element of a `Vec<CaptureOrigin>`.
pub open spec fn capture_origins_debugs(v: Seq<CaptureOriginModel>) -> Seq<Seq<char>>
    decreases v, 0int,
{
    Seq::new(v.len(), |i: int| if 0 <= i < v.len() { capture_origin_debug(v[i]) } else { arbitrary() })
}

/// The diagnostic form of a `Vec<CaptureOrigin>`.
pub open spec fn capture_origins_debug(v: Seq<CaptureOriginModel>) -> Seq<char>
    decreases v, 1int,
{
    "["@ + join(capture_origins_debugs(v), ", "@) + "]"@
}

fn debug_one_of_capture_origins(v: &Vec<CaptureOrigin>, i: usize) -> (r: String)
    requires
        i < v@.len(),
    ensures
        r@ == capture_origins_debugs(capture_origins_view(*v))[i as int],
    decreases v, 0int,
{
    assert(capture_origins_view(*v)[i as int] == v@[i as int]@);
    debug_capture_origin(&v[i])
}

fn debug_capture_origins(v: &Vec<CaptureOrigin>) -> (r: String)
    ensures
        r@ == capture_origins_debug(capture_origins_view(*v)),
    decreases v, 1int,
{
    let mut inner: String = String::new();
    let ghost model = capture_origins_view(*v);
    let ghost texts = capture_origins_debugs(model);
    for i in 0..v.len()
        invariant
            model == capture_origins_view(*v),
            texts == capture_origins_debugs(model),
            inner@ == join(texts.take(i as int), ", "@),
    {
        assert(texts.take(i + 1) =~= texts.take(i as int).push(texts[i as int]));
        let part: String = debug_one_of_capture_origins(v, i);
        assert(part@ == texts[i as int]);
        join_push(&mut inner, i == 0, ", ", &part, Ghost(texts.take(i as int)));
    }
    assert(texts.take(texts.len() as int) =~= texts);
    cat3("[", &inner, "]")
}

/// The diagnostic form of a [`CaptureOrigin`].
pub open spec fn capture_origin_debug(x: CaptureOriginModel) -> Seq<char>
    decreases x,
{
    "CaptureOrigin { origin: "@ + origin_debug(x.origin)
        + ", access: "@ + capture_access_debug(x.access) + " }"@
}

/// The diagnostic form of a [`CaptureOrigin`].
pub fn debug_capture_origin(x: &CaptureOrigin) -> (r: String)
    ensures
        r@ == capture_origin_debug(x@),
    decreases x,
{
    let mut s: String = "CaptureOrigin { origin: ".to_owned();
    s.append(&debug_origin(&x.origin));
    s.append(", access: ");
    s.append(&debug_capture_access(&x.access));
    s.append(" }");
    s
}

/// The diagnostic form of a [`CaptureAccess`].
pub open spec fn capture_access_debug(x: CaptureAccess) -> Seq<char>
{
    match x {
        CaptureAccess::Read => "Read"@,
        CaptureAccess::Write => "Write"@,
    }
}

/// The diagnostic form of a [`CaptureAccess`].
pub fn debug_capture_access(x: &CaptureAccess) -> (r: String)
    ensures
        r@ == capture_access_debug(*x),
{
    match x {
        CaptureAccess::Read => "Read".to_owned(),
        CaptureAccess::Write => "Write".to_owned(),
    }
}

/// The diagnostic form of each element of a `Vec<bool>`.
pub open spec fn bools_debugs(v: Seq<bool>) -> Seq<Seq<char>>
{
    Seq::new(v.len(), |i: int| if 0 <= i < v.len() { bool_debug(v[i]) } else { arbitrary() })
}

/// The diagnostic form of a `Vec<bool>`.
pub open spec fn bools_debug(v: Seq<bool>) -> Seq<char>
{
    "["@ + join(bools_debugs(v), ", "@) + "]"@
}

fn debug_bools(v: &Vec<bool>) -> (r: String)
    ensures
        r@ == bools_debug(v@),
{
    let mut inner: String = String::new();
    let ghost model = v@;
    let ghost texts = bools_debugs(model);
    for i in 0..v.len()
        invariant
            model == v@,
            texts == bools_debugs(model),
            inner@ == join(texts.take(i as int), ", "@),
    {
        assert(texts.take(i + 1) =~= texts.take(i as int).push(texts[i as int]));
        let part: String = debug_bool(v[i]).to_owned();
        assert(part@ == texts[i as int]);
        join_push(&mut inner, i == 0, ", ", &part, Ghost(texts.take(i as int)));
    }
    assert(texts.take(texts.len() as int) =~= texts);
    cat3("[", &inner, "]")
}

/// The diagnostic form of an `Option<usize>`.
pub open spec fn opt_usize_debug(v: Option<usize>) -> Seq<char>
{
    match v {
        Some(x) => "Some("@ + dec(x as nat) + ")"@,
        None => "None"@,
    }
}

fn debug_opt_usize(v: &Option<usize>) -> (r: String)
    ensures
        r@ == opt_usize_debug(*v),
{
    match v {
        Some(x) => {
            let mut s: String = "Some(".to_owned();
            s.append(&dec_text_usize(*x));
            s.append(")");
            s
        },
        None => "None".to_owned(),
    }
}

/// The diagnostic form of each element of a `Vec<Option<ArgConvention>>`.
pub open spec fn opt_arg_conventions_debugs(v: Seq<Option<ArgConvention>>) -> Seq<Seq<char>>
{
    Seq::new(v.len(), |i: int| if 0 <= i < v.len() { opt_arg_convention_debug(v[i]) } else { arbitrary() })
}

/// The diagnostic form of a `Vec<Option<ArgConvention>>`.
pub open spec fn opt_arg_conventions_debug(v: Seq<Option<ArgConvention>>) -> Seq<char>
{
    "["@ + join(opt_arg_conventions_debugs(v), ", "@) + "]"@
}

fn debug_opt_arg_conventions(v: &Vec<Option<ArgConvention>>) -> (r: String)
    ensures
        r@ == opt_arg_conventions_debug(v@),
{
    let mut inner: String = String::new();
    let ghost model = v@;
    let ghost texts = opt_arg_conventions_debugs(model);
    for i in 0..v.len()
        invariant
            model == v@,
            texts == opt_arg_conventions_debugs(model),
            inner@ == join(texts.take(i as int), ", "@),
    {
        assert(texts.take(i + 1) =~= texts.take(i as int).push(texts[i as int]));
        let part: String = debug_opt_arg_convention(&v[i]);
        assert(part@ == texts[i as int]);
        join_push(&mut inner, i == 0, ", ", &part, Ghost(texts.take(i as int)));
    }
    assert(texts.take(texts.len() as int) =~= texts);
    cat3("[", &inner, "]")
}

/// The diagnostic form of an `Option<ArgConvention>`.
pub open spec fn opt_arg_convention_debug(v: Option<ArgConvention>) -> Seq<char>
{
    match v {
        Some(x) => "Some("@ + arg_convention_debug(x) + ")"@,
        None => "None"@,
    }
}

fn debug_opt_arg_convention(v: &Option<ArgConvention>) -> (r: String)
    ensures
        r@ == opt_arg_convention_debug(*v),
{
    match v {
        Some(x) => {
            let mut s: String = "Some(".to_owned();
            s.append(&debug_arg_convention(x));
            s.append(")");
            s
        },
        None => "None".to_owned(),
    }
}

/// The diagnostic form of a [`ArgConvention`].
pub open spec fn arg_convention_debug(x: ArgConvention) -> Seq<char>
{
    match x {
        ArgConvention::Imm => "Imm"@,
        ArgConvention::Mut => "Mut"@,
        ArgConvention::Var => "Var"@,
        ArgConvention::Out => "Out"@,
        ArgConvention::Ref => "Ref"@,
        ArgConvention::Deinit => "Deinit"@,
    }
}

/// The diagnostic form of a [`ArgConvention`].
pub fn debug_arg_convention(x: &ArgConvention) -> (r: String)
    ensures
        r@ == arg_convention_debug(*x),
{
    match x {
        ArgConvention::Imm => "Imm".to_owned(),
        ArgConvention::Mut => "Mut".to_owned(),
        ArgConvention::Var => "Var".to_owned(),
        ArgConvention::Out => "Out".to_owned(),
        ArgConvention::Ref => "Ref".to_owned(),
        ArgConvention::Deinit => "Deinit".to_owned(),
    }
}

/// The diagnostic form of each element of a `Vec<Option<RefSig>>`.
pub open spec fn opt_ref_sigs_debugs(v: Seq<Option<RefSigModel>>) -> Seq<Seq<char>>
    decreases v, 0int,
{
    Seq::new(v.len(), |i: int| if 0 <= i < v.len() { opt_ref_sig_debug(v[i]) } else { arbitrary() })
}

/// The diagnostic form of a `Vec<Option<RefSig>>`.
pub open spec fn opt_ref_sigs_debug(v: Seq<Option<RefSigModel>>) -> Seq<char>
    decreases v, 1int,
{
    "["@ + join(opt_ref_sigs_debugs(v), ", "@) + "]"@
}

fn debug_opt_ref_sigs(v: &Vec<Option<RefSig>>) -> (r: String)
    ensures
        r@ == opt_ref_sigs_debug(opt_ref_sigs_view(*v)),
    decreases v, 1int,
{
    let mut inner: String = String::new();
    let ghost model = opt_ref_sigs_view(*v);
    let ghost texts = opt_ref_sigs_debugs(model);
    for i in 0..v.len()
        invariant
            model == opt_ref_sigs_view(*v),
            texts == opt_ref_sigs_debugs(model),
            inner@ == join(texts.take(i as int), ", "@),
    {
        assert(texts.take(i + 1) =~= texts.take(i as int).push(texts[i as int]));
        let part: String = debug_opt_ref_sig(&v[i]);
        assert(part@ == texts[i as int]);
        join_push(&mut inner, i == 0, ", ", &part, Ghost(texts.take(i as int)));
    }
    assert(texts.take(texts.len() as int) =~= texts);
    cat3("[", &inner, "]")
}

/// The diagnostic form of an `Option<RefSig>`.
pub open spec fn opt_ref_sig_debug(v: Option<RefSigModel>) -> Seq<char>
    decreases v,
{
    match v {
        Some(x) => "Some("@ + ref_sig_debug(x) + ")"@,
        None => "None"@,
    }
}

fn debug_opt_ref_sig(v: &Option<RefSig>) -> (r: String)
    ensures
        r@ == opt_ref_sig_debug(opt_ref_sig_view(*v)),
    decreases v,
{
    match v {
        Some(x) => {
            let mut s: String = "Some(".to_owned();
            s.append(&debug_ref_sig(x));
            s.append(")");
            s
        },
        None => "None".to_owned(),
    }
}

/// The diagnostic form of a [`RefSig`].
pub open spec fn ref_sig_debug(x: RefSigModel) -> Seq<char>
    decreases x,
{
    "RefSig { origin: "@ + sig_origin_debug(x.origin)
        + ", mutability: "@ + sig_mutability_debug(x.mutability) + " }"@
}

/// The diagnostic form of a [`RefSig`].
pub fn debug_ref_sig(x: &RefSig) -> (r: String)
    ensures
        r@ == ref_sig_debug(x@),
    decreases x,
{
    let mut s: String = "RefSig { origin: ".to_owned();
    s.append(&debug_sig_origin(&x.origin));
    s.append(", mutability: ");
    s.append(&debug_sig_mutability(&x.mutability));
    s.append(" }");
    s
}

/// The diagnostic form of a [`SigOrigin`].
pub open spec fn sig_origin_debug(x: SigOriginModel) -> Seq<char>
    decreases x,
{
    match x {
        SigOriginModel::Self_ => "Self_"@,
        SigOriginModel::Param(a0) => "Param("@ + dec(a0 as nat) + ")"@,
        SigOriginModel::Bound(a0) => "Bound("@ + origin_debug(a0) + ")"@,
        SigOriginModel::Static => "Static"@,
        SigOriginModel::Untracked { mutable } => "Untracked { mutable: "@ + bool_debug(mutable) + " }"@,
        SigOriginModel::Projected(a0, a1) => "Projected("@ + sig_origin_debug(*a0) + ", "@ + origin_segs_debug(a1) + ")"@,
        SigOriginModel::Union(a0) => "Union("@ + sig_origins_debug(a0) + ")"@,
        SigOriginModel::Infer => "Infer"@,
    }
}

/// The diagnostic form of a [`SigOrigin`].
pub fn debug_sig_origin(x: &SigOrigin) -> (r: String)
    ensures
        r@ == sig_origin_debug(x@),
    decreases x,
{
    match x {
        SigOrigin::Self_ => "Self_".to_owned(),
        SigOrigin::Param(a0) => {
            let mut s: String = "Param(".to_owned();
            s.append(&dec_text_usize(*a0));
            s.append(")");
            s
        },
        SigOrigin::Bound(a0) => {
            let mut s: String = "Bound(".to_owned();
            s.append(&debug_origin(a0));
            s.append(")");
            s
        },
        SigOrigin::Static => "Static".to_owned(),
        SigOrigin::Untracked { mutable } => {
            let mut s: String = "Untracked { mutable: ".to_owned();
            s.append(debug_bool(*mutable));
            s.append(" }");
            s
        },
        SigOrigin::Projected(a0, a1) => {
            let mut s: String = "Projected(".to_owned();
            s.append(&debug_sig_origin(a0));
            s.append(", ");
            s.append(&debug_origin_segs(a1));
            s.append(")");
            s
        },
        SigOrigin::Union(a0) => {
            let mut s: String = "Union(".to_owned();
            s.append(&debug_sig_origins(a0));
            s.append(")");
            s
        },
        SigOrigin::Infer => "Infer".to_owned(),
    }
}

/// The diagnostic form of each element of a `Vec<SigOrigin>`.
pub open spec fn sig_origins_debugs(v: Seq<SigOriginModel>) -> Seq<Seq<char>>
    decreases v, 0int,
{
    Seq::new(v.len(), |i: int| if 0 <= i < v.len() { sig_origin_debug(v[i]) } else { arbitrary() })
}

/// The diagnostic form of a `Vec<SigOrigin>`.
pub open spec fn sig_origins_debug(v: Seq<SigOriginModel>) -> Seq<char>
    decreases v, 1int,
{
    "["@ + join(sig_origins_debugs(v), ", "@) + "]"@
}

fn debug_one_of_sig_origins(v: &Vec<SigOrigin>, i: usize) -> (r: String)
    requires
        i < v@.len(),
    ensures
        r@ == sig_origins_debugs(sig_origins_view(*v))[i as int],
    decreases v, 0int,
{
    assert(sig_origins_view(*v)[i as int] == v@[i as int]@);
    debug_sig_origin(&v[i])
}

fn debug_sig_origins(v: &Vec<SigOrigin>) -> (r: String)
    ensures
        r@ == sig_origins_debug(sig_origins_view(*v)),
    decreases v, 1int,
{
    let mut inner: String = String::new();
    let ghost model = sig_origins_view(*v);
    let ghost texts = sig_origins_debugs(model);
    for i in 0..v.len()
        invariant
            model == sig_origins_view(*v),
            texts == sig_origins_debugs(model),
            inner@ == join(texts.take(i as int), ", "@),
    {
        assert(texts.take(i + 1) =~= texts.take(i as int).push(texts[i as int]));
        let part: String = debug_one_of_sig_origins(v, i);
        assert(part@ == texts[i as int]);
        join_push(&mut inner, i == 0, ", ", &part, Ghost(texts.take(i as int)));
    }
    assert(texts.take(texts.len() as int) =~= texts);
    cat3("[", &inner, "]")
}

/// The diagnostic form of a [`SigMutability`].
pub open spec fn sig_mutability_debug(x: SigMutability) -> Seq<char>
{
    match x {
        SigMutability::Immutable => "Immutable"@,
        SigMutability::Mutable => "Mutable"@,
        SigMutability::BoolParam(a0) => "BoolParam("@ + dec(a0 as nat) + ")"@,
        SigMutability::Infer => "Infer"@,
    }
}

/// The diagnostic form of a [`SigMutability`].
pub fn debug_sig_mutability(x: &SigMutability) -> (r: String)
    ensures
        r@ == sig_mutability_debug(*x),
{
    match x {
        SigMutability::Immutable => "Immutable".to_owned(),
        SigMutability::Mutable => "Mutable".to_owned(),
        SigMutability::BoolParam(a0) => {
            let mut s: String = "BoolParam(".to_owned();
            s.append(&dec_text_usize(*a0));
            s.append(")");
            s
        },
        SigMutability::Infer => "Infer".to_owned(),
    }
}

/// The diagnostic form of an `Option<Box<RefSig>>`.
pub open spec fn opt_boxed_ref_sig_debug(v: Option<Box<RefSigModel>>) -> Seq<char>
    decreases v,
{
    match v {
        Some(x) => "Some("@ + ref_sig_debug(*x) + ")"@,
        None => "None"@,
    }
}

fn debug_opt_boxed_ref_sig(v: &Option<Box<RefSig>>) -> (r: String)
    ensures
        r@ == opt_boxed_ref_sig_debug(opt_boxed_ref_sig_view(*v)),
    decreases v,
{
    match v {
        Some(x) => {
            let mut s: String = "Some(".to_owned();
            s.append(&debug_ref_sig(x));
            s.append(")");
            s
        },
        None => "None".to_owned(),
    }
}

/// The diagnostic form of each element of a `Vec<usize>`.
pub open spec fn usizes_debugs(v: Seq<usize>) -> Seq<Seq<char>>
{
    Seq::new(v.len(), |i: int| if 0 <= i < v.len() { dec(v[i] as nat) } else { arbitrary() })
}

/// The diagnostic form of a `Vec<usize>`.
pub open spec fn usizes_debug(v: Seq<usize>) -> Seq<char>
{
    "["@ + join(usizes_debugs(v), ", "@) + "]"@
}

fn debug_usizes(v: &Vec<usize>) -> (r: String)
    ensures
        r@ == usizes_debug(v@),
{
    let mut inner: String = String::new();
    let ghost model = v@;
    let ghost texts = usizes_debugs(model);
    for i in 0..v.len()
        invariant
            model == v@,
            texts == usizes_debugs(model),
            inner@ == join(texts.take(i as int), ", "@),
    {
        assert(texts.take(i + 1) =~= texts.take(i as int).push(texts[i as int]));
        let part: String = dec_text_usize(v[i]);
        assert(part@ == texts[i as int]);
        join_push(&mut inner, i == 0, ", ", &part, Ghost(texts.take(i as int)));
    }
    assert(texts.take(texts.len() as int) =~= texts);
    cat3("[", &inner, "]")
}

/// The diagnostic form of each element of a `Vec<ParamDecl>`.
pub open spec fn param_decls_debugs(v: Seq<ParamDeclModel>) -> Seq<Seq<char>>
    decreases v, 0int,
{
    Seq::new(v.len(), |i: int| if 0 <= i < v.len() { param_decl_debug(v[i]) } else { arbitrary() })
}

/// The diagnostic form of a `Vec<ParamDecl>`.
pub open spec fn param_decls_debug(v: Seq<ParamDeclModel>) -> Seq<char>
    decreases v, 1int,
{
    "["@ + join(param_decls_debugs(v), ", "@) + "]"@
}

fn debug_one_of_param_decls(v: &Vec<ParamDecl>, i: usize) -> (r: String)
    requires
        i < v@.len(),
    ensures
        r@ == param_decls_debugs(param_decls_view(*v))[i as int],
    decreases v, 0int,
{
    assert(param_decls_view(*v)[i as int] == v@[i as int]@);
    debug_param_decl(&v[i])
}

fn debug_param_decls(v: &Vec<ParamDecl>) -> (r: String)
    ensures
        r@ == param_decls_debug(param_decls_view(*v)),
    decreases v, 1int,
{
    let mut inner: String = String::new();
    let ghost model = param_decls_view(*v);
    let ghost texts = param_decls_debugs(model);
    for i in 0..v.len()
        invariant
            model == param_decls_view(*v),
            texts == param_decls_debugs(model),
            inner@ == join(texts.take(i as int), ", "@),
    {
        assert(texts.take(i + 1) =~= texts.take(i as int).push(texts[i as int]));
        let part: String = debug_one_of_param_decls(v, i);
        assert(part@ == texts[i as int]);
        join_push(&mut inner, i == 0, ", ", &part, Ghost(texts.take(i as int)));
    }
    assert(texts.take(texts.len() as int) =~= texts);
    cat3("[", &inner, "]")
}

/// The diagnostic form of a [`ParamDecl`].
pub open spec fn param_decl_debug(x: ParamDeclModel) -> Seq<char>
    decreases x,
{
    match x {
        ParamDeclModel::Type { name, default, infer_only, variadic } => "Type { name: "@ + quoted_text(name)
            + ", default: "@ + opt_boxed_ty_debug(default)
            + ", infer_only: "@ + bool_debug(infer_only)
            + ", variadic: "@ + bool_debug(variadic) + " }"@,
        ParamDeclModel::Value {
            name,
            ty,
            default,
            callable_default,
            infer_only,
            variadic,
        } => "Value { name: "@ + quoted_text(name)
            + ", ty: "@ + ty_debug(*ty)
            + ", default: "@ + opt_ct_expr_debug(default)
            + ", callable_default: "@ + opt_string_debug(callable_default)
            + ", infer_only: "@ + bool_debug(infer_only)
            + ", variadic: "@ + bool_debug(variadic) + " }"@,
    }
}

/// The diagnostic form of a [`ParamDecl`].
pub fn debug_param_decl(x: &ParamDecl) -> (r: String)
    ensures
        r@ == param_decl_debug(x@),
    decreases x,
{
    match x {
        ParamDecl::Type { name, default, infer_only, variadic } => {
            let mut s: String = "Type { name: ".to_owned();
            s.append(&quoted(name));
            s.append(", default: ");
            s.append(&debug_opt_boxed_ty(default));
            s.append(", infer_only: ");
            s.append(debug_bool(*infer_only));
            s.append(", variadic: ");
            s.append(debug_bool(*variadic));
            s.append(" }");
            s
        },
        ParamDecl::Value { name, ty, default, callable_default, infer_only, variadic } => {
            let mut s: String = "Value { name: ".to_owned();
            s.append(&quoted(name));
            s.append(", ty: ");
            s.append(&debug_ty(ty));
            s.append(", default: ");
            s.append(&debug_opt_ct_expr(default));
            s.append(", callable_default: ");
            s.append(&debug_opt_string(callable_default));
            s.append(", infer_only: ");
            s.append(debug_bool(*infer_only));
            s.append(", variadic: ");
            s.append(debug_bool(*variadic));
            s.append(" }");
            s
        },
    }
}

/// The diagnostic form of an `Option<CtExpr>`.
pub open spec fn opt_ct_expr_debug(v: Option<CtExprModel>) -> Seq<char>
    decreases v,
{
    match v {
        Some(x) => "Some("@ + ct_expr_debug(x) + ")"@,
        None => "None"@,
    }
}

fn debug_opt_ct_expr(v: &Option<CtExpr>) -> (r: String)
    ensures
        r@ == opt_ct_expr_debug(opt_ct_expr_view(*v)),
    decreases v,
{
    match v {
        Some(x) => {
            let mut s: String = "Some(".to_owned();
            s.append(&debug_ct_expr(x));
            s.append(")");
            s
        },
        None => "None".to_owned(),
    }
}

/// The diagnostic form of an `Option<String>`.
pub open spec fn opt_string_debug(v: Option<Seq<char>>) -> Seq<char>
    decreases v,
{
    match v {
        Some(x) => "Some("@ + quoted_text(x) + ")"@,
        None => "None"@,
    }
}

fn debug_opt_string(v: &Option<String>) -> (r: String)
    ensures
        r@ == opt_string_debug(opt_string_view(*v)),
    decreases v,
{
    match v {
        Some(x) => {
            let mut s: String = "Some(".to_owned();
            s.append(&quoted(x));
            s.append(")");
            s
        },
        None => "None".to_owned(),
    }
}

/// The diagnostic form of a [`Type`].
pub open spec fn type_debug(x: TypeModel) -> Seq<char>
    decreases x,
{
    match x {
        TypeModel::Int => "Int"@,
        TypeModel::UInt => "UInt"@,
        TypeModel::Bool => "Bool"@,
        TypeModel::StringLiteral => "StringLiteral"@,
        TypeModel::Float64 => "Float64"@,
        TypeModel::NoneType => "None"@,
        TypeModel::Named(a0, a1) => "Named("@ + quoted_text(a0) + ", "@ + source_args_debug(a1) + ")"@,
        TypeModel::SelfParam(a0) => "SelfParam("@ + quoted_text(a0) + ")"@,
        TypeModel::Assoc { base, name, args } => "Assoc { base: "@ + type_debug(*base)
            + ", name: "@ + quoted_text(name)
            + ", args: "@ + source_args_debug(args) + " }"@,
        TypeModel::IndexedProjection { base, index } => "IndexedProjection { base: "@ + type_debug(*base)
            + ", index: "@ + expr_debug(*index) + " }"@,
        TypeModel::SelfType => "SelfType"@,
        TypeModel::MaterializedCallable(a0) => "MaterializedCallable("@ + quoted_text(a0) + ")"@,
    }
}

/// The diagnostic form of a [`Type`].
pub fn debug_type(x: &Type) -> (r: String)
    ensures
        r@ == type_debug(x@),
    decreases x,
{
    match x {
        Type::Int => "Int".to_owned(),
        Type::UInt => "UInt".to_owned(),
        Type::Bool => "Bool".to_owned(),
        Type::StringLiteral => "StringLiteral".to_owned(),
        Type::Float64 => "Float64".to_owned(),
        Type::NoneType => "None".to_owned(),
        Type::Named(a0, a1) => {
            let mut s: String = "Named(".to_owned();
            s.append(&quoted(a0));
            s.append(", ");
            s.append(&debug_source_args(a1));
            s.append(")");
            s
        },
        Type::SelfParam(a0) => {
            let mut s: String = "SelfParam(".to_owned();
            s.append(&quoted(a0));
            s.append(")");
            s
        },
        Type::Assoc { base, name, args } => {
            let mut s: String = "Assoc { base: ".to_owned();
            s.append(&debug_type(base));
            s.append(", name: ");
            s.append(&quoted(name));
            s.append(", args: ");
            s.append(&debug_source_args(args));
            s.append(" }");
            s
        },
        Type::IndexedProjection { base, index } => {
            let mut s: String = "IndexedProjection { base: ".to_owned();
            s.append(&debug_type(base));
            s.append(", index: ");
            s.append(&debug_expr(index));
            s.append(" }");
            s
        },
        Type::SelfType => "SelfType".to_owned(),
        Type::MaterializedCallable(a0) => {
            let mut s: String = "MaterializedCallable(".to_owned();
            s.append(&quoted(a0));
            s.append(")");
            s
        },
    }
}

/// The diagnostic form of each element of a `Vec<ParamArg>`.
pub open spec fn source_args_debugs(v: Seq<ParamArgModel>) -> Seq<Seq<char>>
    decreases v, 0int,
{
    Seq::new(v.len(), |i: int| if 0 <= i < v.len() { source_arg_debug(v[i]) } else { arbitrary() })
}

/// The diagnostic form of a `Vec<ParamArg>`.
pub open spec fn source_args_debug(v: Seq<ParamArgModel>) -> Seq<char>
    decreases v, 1int,
{
    "["@ + join(source_args_debugs(v), ", "@) + "]"@
}

fn debug_one_of_source_args(v: &Vec<ParamArg>, i: usize) -> (r: String)
    requires
        i < v@.len(),
    ensures
        r@ == source_args_debugs(source_args_view(*v))[i as int],
    decreases v, 0int,
{
    assert(source_args_view(*v)[i as int] == v@[i as int]@);
    debug_source_arg(&v[i])
}

fn debug_source_args(v: &Vec<ParamArg>) -> (r: String)
    ensures
        r@ == source_args_debug(source_args_view(*v)),
    decreases v, 1int,
{
    let mut inner: String = String::new();
    let ghost model = source_args_view(*v);
    let ghost texts = source_args_debugs(model);
    for i in 0..v.len()
        invariant
            model == source_args_view(*v),
            texts == source_args_debugs(model),
            inner@ == join(texts.take(i as int), ", "@),
    {
        assert(texts.take(i + 1) =~= texts.take(i as int).push(texts[i as int]));
        let part: String = debug_one_of_source_args(v, i);
        assert(part@ == texts[i as int]);
        join_push(&mut inner, i == 0, ", ", &part, Ghost(texts.take(i as int)));
    }
    assert(texts.take(texts.len() as int) =~= texts);
    cat3("[", &inner, "]")
}

/// The diagnostic form of a [`ParamArg`].
pub open spec fn source_arg_debug(x: ParamArgModel) -> Seq<char>
    decreases x,
{
    match x {
        ParamArgModel::Type(a0) => "Type("@ + type_debug(a0) + ")"@,
        ParamArgModel::Value(a0) => "Value("@ + expr_debug(a0) + ")"@,
        ParamArgModel::Named { name, value } => "Named { name: "@ + quoted_text(name)
            + ", value: "@ + plain_arg_debug(*value) + " }"@,
    }
}

/// The diagnostic form of a [`ParamArg`].
pub fn debug_source_arg(x: &ParamArg) -> (r: String)
    ensures
        r@ == source_arg_debug(x@),
    decreases x,
{
    match x {
        ParamArg::Type(a0) => {
            let mut s: String = "Type(".to_owned();
            s.append(&debug_type(a0));
            s.append(")");
            s
        },
        ParamArg::Value(a0) => {
            let mut s: String = "Value(".to_owned();
            s.append(&debug_expr(a0));
            s.append(")");
            s
        },
        ParamArg::Named { name, value } => {
            let mut s: String = "Named { name: ".to_owned();
            s.append(&quoted(name));
            s.append(", value: ");
            s.append(&debug_plain_arg(value));
            s.append(" }");
            s
        },
    }
}

/// The diagnostic form of a [`Expr`].
pub open spec fn expr_debug(x: ExprModel) -> Seq<char>
    decreases x,
{
    "Expr { kind: "@ + expr_kind_debug(x.kind)
        + ", span: "@ + "("@ + dec(x.span.0 as nat) + ", "@ + dec(x.span.1 as nat) + ")"@ + " }"@
}

/// The diagnostic form of a [`Expr`].
pub fn debug_expr(x: &Expr) -> (r: String)
    ensures
        r@ == expr_debug(x@),
    decreases x,
{
    let mut s: String = "Expr { kind: ".to_owned();
    s.append(&debug_expr_kind(&x.kind));
    s.append(", span: ");
    s.append("(");
    s.append(&dec_text_usize(x.span.0));
    s.append(", ");
    s.append(&dec_text_usize(x.span.1));
    s.append(")");
    s.append(" }");
    s
}

/// The diagnostic form of a [`ExprKind`].
pub open spec fn expr_kind_debug(x: ExprKindModel) -> Seq<char>
    decreases x,
{
    match x {
        ExprKindModel::Identifier(a0) => "Identifier("@ + quoted_text(a0) + ")"@,
        ExprKindModel::Int(a0) => "Int("@ + int_literal_debug(a0) + ")"@,
        ExprKindModel::Bool(a0) => "Bool("@ + bool_debug(a0) + ")"@,
        ExprKindModel::Str(a0) => "Str("@ + quoted_text(a0) + ")"@,
        ExprKindModel::Member { object, field } => "Member { object: "@ + expr_debug(*object)
            + ", field: "@ + quoted_text(field) + " }"@,
        ExprKindModel::Index { object, index } => "Index { object: "@ + expr_debug(*object)
            + ", index: "@ + expr_debug(*index) + " }"@,
        ExprKindModel::Slice { object, lower, upper, step } => "Slice { object: "@ + expr_debug(*object)
            + ", lower: "@ + opt_boxed_expr_debug(lower)
            + ", upper: "@ + opt_boxed_expr_debug(upper)
            + ", step: "@ + opt_boxed_expr_debug(step) + " }"@,
        ExprKindModel::MultiIndex { object, args } => "MultiIndex { object: "@ + expr_debug(*object)
            + ", args: "@ + exprs_debug(args) + " }"@,
        ExprKindModel::TypeApply { name, args } => "TypeApply { name: "@ + quoted_text(name)
            + ", args: "@ + source_args_debug(args) + " }"@,
        ExprKindModel::Call { name, param_args, args, kwargs } => "Call { name: "@ + quoted_text(name)
            + ", param_args: "@ + source_args_debug(param_args)
            + ", args: "@ + exprs_debug(args)
            + ", kwargs: "@ + kw_args_debug(kwargs) + " }"@,
        ExprKindModel::Prefix(a0, a1) => "Prefix("@ + prefix_op_debug(a0) + ", "@ + expr_debug(*a1) + ")"@,
        ExprKindModel::Infix(a0, a1, a2) => "Infix("@ + operator_name(a0) + ", "@ + expr_debug(*a1) + ", "@ + expr_debug(*a2) + ")"@,
        ExprKindModel::TupleLit(a0) => "TupleLit("@ + exprs_debug(a0) + ")"@,
        ExprKindModel::Uninitialized => "Uninitialized"@,
    }
}

/// The diagnostic form of a [`ExprKind`].
pub fn debug_expr_kind(x: &ExprKind) -> (r: String)
    ensures
        r@ == expr_kind_debug(x@),
    decreases x,
{
    match x {
        ExprKind::Identifier(a0) => {
            let mut s: String = "Identifier(".to_owned();
            s.append(&quoted(a0));
            s.append(")");
            s
        },
        ExprKind::Int(a0) => {
            let mut s: String = "Int(".to_owned();
            s.append(&debug_int_literal(a0));
            s.append(")");
            s
        },
        ExprKind::Bool(a0) => {
            let mut s: String = "Bool(".to_owned();
            s.append(debug_bool(*a0));
            s.append(")");
            s
        },
        ExprKind::Str(a0) => {
            let mut s: String = "Str(".to_owned();
            s.append(&quoted(a0));
            s.append(")");
            s
        },
        ExprKind::Member { object, field } => {
            let mut s: String = "Member { object: ".to_owned();
            s.append(&debug_expr(object));
            s.append(", field: ");
            s.append(&quoted(field));
            s.append(" }");
            s
        },
        ExprKind::Index { object, index } => {
            let mut s: String = "Index { object: ".to_owned();
            s.append(&debug_expr(object));
            s.append(", index: ");
            s.append(&debug_expr(index));
            s.append(" }");
            s
        },
        ExprKind::Slice { object, lower, upper, step } => {
            let mut s: String = "Slice { object: ".to_owned();
            s.append(&debug_expr(object));
            s.append(", lower: ");
            s.append(&debug_opt_boxed_expr(lower));
            s.append(", upper: ");
            s.append(&debug_opt_boxed_expr(upper));
            s.append(", step: ");
            s.append(&debug_opt_boxed_expr(step));
            s.append(" }");
            s
        },
        ExprKind::MultiIndex { object, args } => {
            let mut s: String = "MultiIndex { object: ".to_owned();
            s.append(&debug_expr(object));
            s.append(", args: ");
            s.append(&debug_exprs(args));
            s.append(" }");
            s
        },
        ExprKind::TypeApply { name, args } => {
            let mut s: String = "TypeApply { name: ".to_owned();
            s.append(&quoted(name));
            s.append(", args: ");
            s.append(&debug_source_args(args));
            s.append(" }");
            s
        },
        ExprKind::Call { name, param_args, args, kwargs } => {
            let mut s: String = "Call { name: ".to_owned();
            s.append(&quoted(name));
            s.append(", param_args: ");
            s.append(&debug_source_args(param_args));
            s.append(", args: ");
            s.append(&debug_exprs(args));
            s.append(", kwargs: ");
            s.append(&debug_kw_args(kwargs));
            s.append(" }");
            s
        },
        ExprKind::Prefix(a0, a1) => {
            let mut s: String = "Prefix(".to_owned();
            s.append(&debug_prefix_op(a0));
            s.append(", ");
            s.append(&debug_expr(a1));
            s.append(")");
            s
        },
        ExprKind::Infix(a0, a1, a2) => {
            let mut s: String = "Infix(".to_owned();
            s.append(name_of_operator(*a0));
            s.append(", ");
            s.append(&debug_expr(a1));
            s.append(", ");
            s.append(&debug_expr(a2));
            s.append(")");
            s
        },
        ExprKind::TupleLit(a0) => {
            let mut s: String = "TupleLit(".to_owned();
            s.append(&debug_exprs(a0));
            s.append(")");
            s
        },
        ExprKind::Uninitialized => "Uninitialized".to_owned(),
    }
}

/// The diagnostic form of an `Option<Box<Expr>>`.
pub open spec fn opt_boxed_expr_debug(v: Option<Box<ExprModel>>) -> Seq<char>
    decreases v,
{
    match v {
        Some(x) => "Some("@ + expr_debug(*x) + ")"@,
        None => "None"@,
    }
}

fn debug_opt_boxed_expr(v: &Option<Box<Expr>>) -> (r: String)
    ensures
        r@ == opt_boxed_expr_debug(opt_boxed_expr_view(*v)),
    decreases v,
{
    match v {
        Some(x) => {
            let mut s: String = "Some(".to_owned();
            s.append(&debug_expr(x));
            s.append(")");
            s
        },
        None => "None".to_owned(),
    }
}

/// The diagnostic form of each element of a `Vec<Expr>`.
pub open spec fn exprs_debugs(v: Seq<ExprModel>) -> Seq<Seq<char>>
    decreases v, 0int,
{
    Seq::new(v.len(), |i: int| if 0 <= i < v.len() { expr_debug(v[i]) } else { arbitrary() })
}

/// The diagnostic form of a `Vec<Expr>`.
pub open spec fn exprs_debug(v: Seq<ExprModel>) -> Seq<char>
    decreases v, 1int,
{
    "["@ + join(exprs_debugs(v), ", "@) + "]"@
}

fn debug_one_of_exprs(v: &Vec<Expr>, i: usize) -> (r: String)
    requires
        i < v@.len(),
    ensures
        r@ == exprs_debugs(exprs_view(*v))[i as int],
    decreases v, 0int,
{
    assert(exprs_view(*v)[i as int] == v@[i as int]@);
    debug_expr(&v[i])
}

fn debug_exprs(v: &Vec<Expr>) -> (r: String)
    ensures
        r@ == exprs_debug(exprs_view(*v)),
    decreases v, 1int,
{
    let mut inner: String = String::new();
    let ghost model = exprs_view(*v);
    let ghost texts = exprs_debugs(model);
    for i in 0..v.len()
        invariant
            model == exprs_view(*v),
            texts == exprs_debugs(model),
            inner@ == join(texts.take(i as int), ", "@),
    {
        assert(texts.take(i + 1) =~= texts.take(i as int).push(texts[i as int]));
        let part: String = debug_one_of_exprs(v, i);
        assert(part@ == texts[i as int]);
        join_push(&mut inner, i == 0, ", ", &part, Ghost(texts.take(i as int)));
    }
    assert(texts.take(texts.len() as int) =~= texts);
    cat3("[", &inner, "]")
}

/// The diagnostic form of each element of a `Vec<KwArg>`.
pub open spec fn kw_args_debugs(v: Seq<KwArgModel>) -> Seq<Seq<char>>
    decreases v, 0int,
{
    Seq::new(v.len(), |i: int| if 0 <= i < v.len() { kw_arg_debug(v[i]) } else { arbitrary() })
}

/// The diagnostic form of a `Vec<KwArg>`.
pub open spec fn kw_args_debug(v: Seq<KwArgModel>) -> Seq<char>
    decreases v, 1int,
{
    "["@ + join(kw_args_debugs(v), ", "@) + "]"@
}

fn debug_one_of_kw_args(v: &Vec<KwArg>, i: usize) -> (r: String)
    requires
        i < v@.len(),
    ensures
        r@ == kw_args_debugs(kw_args_view(*v))[i as int],
    decreases v, 0int,
{
    assert(kw_args_view(*v)[i as int] == v@[i as int]@);
    debug_kw_arg(&v[i])
}

fn debug_kw_args(v: &Vec<KwArg>) -> (r: String)
    ensures
        r@ == kw_args_debug(kw_args_view(*v)),
    decreases v, 1int,
{
    let mut inner: String = String::new();
    let ghost model = kw_args_view(*v);
    let ghost texts = kw_args_debugs(model);
    for i in 0..v.len()
        invariant
            model == kw_args_view(*v),
            texts == kw_args_debugs(model),
            inner@ == join(texts.take(i as int), ", "@),
    {
        assert(texts.take(i + 1) =~= texts.take(i as int).push(texts[i as int]));
        let part: String = debug_one_of_kw_args(v, i);
        assert(part@ == texts[i as int]);
        join_push(&mut inner, i == 0, ", ", &part, Ghost(texts.take(i as int)));
    }
    assert(texts.take(texts.len() as int) =~= texts);
    cat3("[", &inner, "]")
}

/// The diagnostic form of a [`KwArg`].
pub open spec fn kw_arg_debug(x: KwArgModel) -> Seq<char>
    decreases x,
{
    "KwArg { name: "@ + quoted_text(x.name)
        + ", value: "@ + expr_debug(x.value) + " }"@
}

/// The diagnostic form of a [`KwArg`].
pub fn debug_kw_arg(x: &KwArg) -> (r: String)
    ensures
        r@ == kw_arg_debug(x@),
    decreases x,
{
    let mut s: String = "KwArg { name: ".to_owned();
    s.append(&quoted(&x.name));
    s.append(", value: ");
    s.append(&debug_expr(&x.value));
    s.append(" }");
    s
}

/// The diagnostic form of a [`PrefixOp`].
pub open spec fn prefix_op_debug(x: PrefixOp) -> Seq<char>
{
    match x {
        PrefixOp::Neg => "Neg"@,
        PrefixOp::Not => "Not"@,
    }
}

/// The diagnostic form of a [`PrefixOp`].
pub fn debug_prefix_op(x: &PrefixOp) -> (r: String)
    ensures
        r@ == prefix_op_debug(*x),
{
    match x {
        PrefixOp::Neg => "Neg".to_owned(),
        PrefixOp::Not => "Not".to_owned(),
    }
}

/// The diagnostic form of a [`PlainArg`].
pub open spec fn plain_arg_debug(x: PlainArgModel) -> Seq<char>
    decreases x,
{
    match x {
        PlainArgModel::Type(a0) => "Type("@ + type_debug(a0) + ")"@,
        PlainArgModel::Value(a0) => "Value("@ + expr_debug(a0) + ")"@,
    }
}

/// The diagnostic form of a [`PlainArg`].
pub fn debug_plain_arg(x: &PlainArg) -> (r: String)
    ensures
        r@ == plain_arg_debug(x@),
    decreases x,
{
    match x {
        PlainArg::Type(a0) => {
            let mut s: String = "Type(".to_owned();
            s.append(&debug_type(a0));
            s.append(")");
            s
        },
        PlainArg::Value(a0) => {
            let mut s: String = "Value(".to_owned();
            s.append(&debug_expr(a0));
            s.append(")");
            s
        },
    }
}

/// The diagnostic form of each element of a `Vec<(String, Ty)>`.
pub open spec fn string_tys_debugs(v: Seq<(Seq<char>, TyModel)>) -> Seq<Seq<char>>
    decreases v, 0int,
{
    Seq::new(
        v.len(),
        |i: int| if 0 <= i < v.len() { "("@ + quoted_text(v[i].0) + ", "@ + ty_debug(v[i].1) + ")"@ } else { arbitrary() },
    )
}

/// The diagnostic form of a `Vec<(String, Ty)>`.
pub open spec fn string_tys_debug(v: Seq<(Seq<char>, TyModel)>) -> Seq<char>
    decreases v, 1int,
{
    "["@ + join(string_tys_debugs(v), ", "@) + "]"@
}

/// The diagnostic form of a `Vec<(String, Ty)>`.
pub fn debug_string_tys(v: &Vec<(String, Ty)>) -> (r: String)
    ensures
        r@ == string_tys_debug(string_tys_view(*v)),
    decreases v, 1int,
{
    let mut inner: String = String::new();
    let ghost model = string_tys_view(*v);
    let ghost texts = string_tys_debugs(model);
    for i in 0..v.len()
        invariant
            model == string_tys_view(*v),
            texts == string_tys_debugs(model),
            inner@ == join(texts.take(i as int), ", "@),
    {
        assert(texts.take(i + 1) =~= texts.take(i as int).push(texts[i as int]));
        let mut part: String = "(".to_owned();
        part.append(&quoted(&v[i].0));
        part.append(", ");
        part.append(&debug_ty(&v[i].1));
        part.append(")");
        assert(part@ == texts[i as int]);
        join_push(&mut inner, i == 0, ", ", &part, Ghost(texts.take(i as int)));
    }
    assert(texts.take(texts.len() as int) =~= texts);
    cat3("[", &inner, "]")
}

} // verus!
