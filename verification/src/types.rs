//! Checked types.

use crate::ast::{
    ArgConvention, Dtype, copy_opt_arg_conventions, dtype_name, dtype_scalar_alias,
    same_opt_arg_conventions,
};
use crate::ct::{
    CtExpr, CtExprModel, CtValue, CtValueModel, copy_opt_ct_expr, ct_expr_view, ct_value_text,
    ct_value_view, same_opt_ct_expr,
};
use crate::data::{
    copy_bools, copy_opt_string, copy_strings, copy_usizes, same_bools, same_opt_string,
    same_strings, same_usizes, strings_view,
};
use crate::origin::{
    CallableEnvironment, CallableEnvironmentModel, Origin, OriginModel, PointerOrigin,
    PointerOriginModel, RefSig, RefSigModel, RefTy, RefTyModel, callable_environment_view,
    copy_opt_boxed_ref_sig, copy_opt_ref_sigs, opt_ref_sigs_view, origin_view, pointer_origin_view,
    ref_sig_view, ref_ty_view, same_opt_boxed_ref_sig, same_opt_ref_sigs,
};
use crate::text::{cat2, cat3, cat4, cat5, dec_int, dec_text_i64, join, join_push};
use vstd::prelude::*;

verus! {

/// A checked type.
#[derive(Debug, PartialEq, Eq)]
pub enum Ty {
    Int,
    UInt,
    IntLiteral,
    FloatLiteral,
    Float64,
    Bool,
    StringLiteral,
    NoneType,
    Error,
    Never,
    Infer,
    Dtype,
    SelfType,
    Simd { dtype: Dtype, width: i64 },
    ComptimeList(Box<Ty>),
    VariadicPack(Box<Ty>),
    Tuple(Vec<Ty>),
    RuntimePack(Vec<Ty>),
    Variant(Vec<Ty>),
    Overload(Vec<Ty>),
    Struct(String, Vec<TyArg>),
    Param { name: String, bounds: Vec<String>, callable_bound: Option<Box<Ty>> },
    Pointer { element: Box<Ty>, origin: PointerOrigin },
    Ref(RefTy),
    Assoc { base: Box<Ty>, name: String, args: Vec<TyArg> },
    Dependent(DependentType),
    Func {
        environment: CallableEnvironment,
        params: Vec<Ty>,
        names: Vec<String>,
        ret: Box<Ty>,
        required: Vec<bool>,
        variadic: Option<Box<Ty>>,
        kw_variadic: Option<Box<Ty>>,
        positional_only: Option<usize>,
        keyword_only: Option<usize>,
        raises: bool,
        error: Option<Box<Ty>>,
        conventions: Vec<Option<ArgConvention>>,
        ref_params: Vec<Option<RefSig>>,
        ref_return: Option<Box<RefSig>>,
        transfers: Vec<usize>,
    },
    GenericFunc {
        environment: CallableEnvironment,
        decls: Vec<ParamDecl>,
        params: Vec<Ty>,
        names: Vec<String>,
        ret: Box<Ty>,
        required: Vec<bool>,
        variadic: Option<Box<Ty>>,
        kw_variadic: Option<Box<Ty>>,
        positional_only: Option<usize>,
        keyword_only: Option<usize>,
        raises: bool,
        error: Option<Box<Ty>>,
        conventions: Vec<Option<ArgConvention>>,
        ref_params: Vec<Option<RefSig>>,
        ref_return: Option<Box<RefSig>>,
        transfers: Vec<usize>,
    },
}

/// Mathematical model of [`Ty`].
#[verifier::ext_equal]
pub enum TyModel {
    Int,
    UInt,
    IntLiteral,
    FloatLiteral,
    Float64,
    Bool,
    StringLiteral,
    NoneType,
    Error,
    Never,
    Infer,
    Dtype,
    SelfType,
    Simd { dtype: Dtype, width: i64 },
    ComptimeList(Box<TyModel>),
    VariadicPack(Box<TyModel>),
    Tuple(Seq<TyModel>),
    RuntimePack(Seq<TyModel>),
    Variant(Seq<TyModel>),
    Overload(Seq<TyModel>),
    Struct(Seq<char>, Seq<TyArgModel>),
    Param { name: Seq<char>, bounds: Seq<Seq<char>>, callable_bound: Option<Box<TyModel>> },
    Pointer { element: Box<TyModel>, origin: PointerOriginModel },
    Ref(RefTyModel),
    Assoc { base: Box<TyModel>, name: Seq<char>, args: Seq<TyArgModel> },
    Dependent(DependentTypeModel),
    Func {
        environment: CallableEnvironmentModel,
        params: Seq<TyModel>,
        names: Seq<Seq<char>>,
        ret: Box<TyModel>,
        required: Seq<bool>,
        variadic: Option<Box<TyModel>>,
        kw_variadic: Option<Box<TyModel>>,
        positional_only: Option<usize>,
        keyword_only: Option<usize>,
        raises: bool,
        error: Option<Box<TyModel>>,
        conventions: Seq<Option<ArgConvention>>,
        ref_params: Seq<Option<RefSigModel>>,
        ref_return: Option<Box<RefSigModel>>,
        transfers: Seq<usize>,
    },
    GenericFunc {
        environment: CallableEnvironmentModel,
        decls: Seq<ParamDeclModel>,
        params: Seq<TyModel>,
        names: Seq<Seq<char>>,
        ret: Box<TyModel>,
        required: Seq<bool>,
        variadic: Option<Box<TyModel>>,
        kw_variadic: Option<Box<TyModel>>,
        positional_only: Option<usize>,
        keyword_only: Option<usize>,
        raises: bool,
        error: Option<Box<TyModel>>,
        conventions: Seq<Option<ArgConvention>>,
        ref_params: Seq<Option<RefSigModel>>,
        ref_return: Option<Box<RefSigModel>>,
        transfers: Seq<usize>,
    },
}

/// One argument of a generic application.
#[derive(Debug, PartialEq, Eq)]
pub enum TyArg {
    Ty(Ty),
    Val(CtValue),
    Origin(Origin),
}

/// Mathematical model of [`TyArg`].
#[verifier::ext_equal]
pub enum TyArgModel {
    Ty(TyModel),
    Val(CtValueModel),
    Origin(OriginModel),
}

/// A type that depends on a compile-time value.
#[derive(Debug, PartialEq, Eq)]
pub enum DependentType {
    /// The element of `elements` that `index` selects.
    Indexed { elements: Vec<Ty>, index: CtExpr },
}

/// Mathematical model of [`DependentType`].
#[verifier::ext_equal]
pub enum DependentTypeModel {
    Indexed { elements: Seq<TyModel>, index: CtExprModel },
}

/// A compile-time parameter of a generic declaration.
#[derive(Debug, PartialEq, Eq)]
#[allow(inconsistent_fields)]
pub enum ParamDecl {
    Type { name: String, default: Option<Box<Ty>>, infer_only: bool, variadic: bool },
    Value {
        name: String,
        ty: Box<Ty>,
        default: Option<CtExpr>,
        callable_default: Option<String>,
        infer_only: bool,
        variadic: bool,
    },
}

/// Mathematical model of [`ParamDecl`].
#[verifier::ext_equal]
#[allow(inconsistent_fields)]
pub enum ParamDeclModel {
    Type { name: Seq<char>, default: Option<Box<TyModel>>, infer_only: bool, variadic: bool },
    Value {
        name: Seq<char>,
        ty: Box<TyModel>,
        default: Option<CtExprModel>,
        callable_default: Option<Seq<char>>,
        infer_only: bool,
        variadic: bool,
    },
}

/// The descriptor a slice expression builds.
#[derive(Debug, Clone, Copy, PartialEq, Eq, Hash, Structural)]
pub enum SliceKind {
    Slice,
    Contiguous,
    Strided,
}

/// The model of a [`Ty`].
pub open spec fn ty_view(x: Ty) -> TyModel
    decreases x,
{
    match x {
        Ty::Int => TyModel::Int,
        Ty::UInt => TyModel::UInt,
        Ty::IntLiteral => TyModel::IntLiteral,
        Ty::FloatLiteral => TyModel::FloatLiteral,
        Ty::Float64 => TyModel::Float64,
        Ty::Bool => TyModel::Bool,
        Ty::StringLiteral => TyModel::StringLiteral,
        Ty::NoneType => TyModel::NoneType,
        Ty::Error => TyModel::Error,
        Ty::Never => TyModel::Never,
        Ty::Infer => TyModel::Infer,
        Ty::Dtype => TyModel::Dtype,
        Ty::SelfType => TyModel::SelfType,
        Ty::Simd { dtype, width } => TyModel::Simd { dtype, width },
        Ty::ComptimeList(a0) => TyModel::ComptimeList(Box::new(ty_view(*a0))),
        Ty::VariadicPack(a0) => TyModel::VariadicPack(Box::new(ty_view(*a0))),
        Ty::Tuple(a0) => TyModel::Tuple(tys_view(a0)),
        Ty::RuntimePack(a0) => TyModel::RuntimePack(tys_view(a0)),
        Ty::Variant(a0) => TyModel::Variant(tys_view(a0)),
        Ty::Overload(a0) => TyModel::Overload(tys_view(a0)),
        Ty::Struct(a0, a1) => TyModel::Struct(a0@, ty_args_view(a1)),
        Ty::Param {
            name,
            bounds,
            callable_bound,
        } => TyModel::Param {
            name: name@,
            bounds: strings_view(bounds),
            callable_bound: match callable_bound { Some(x) => Some(Box::new(ty_view(*x))), None => None },
        },
        Ty::Pointer { element, origin } => TyModel::Pointer {
            element: Box::new(ty_view(*element)),
            origin: pointer_origin_view(origin),
        },
        Ty::Ref(a0) => TyModel::Ref(ref_ty_view(a0)),
        Ty::Assoc { base, name, args } => TyModel::Assoc {
            base: Box::new(ty_view(*base)),
            name: name@,
            args: ty_args_view(args),
        },
        Ty::Dependent(a0) => TyModel::Dependent(dependent_type_view(a0)),
        Ty::Func {
            environment,
            params,
            names,
            ret,
            required,
            variadic,
            kw_variadic,
            positional_only,
            keyword_only,
            raises,
            error,
            conventions,
            ref_params,
            ref_return,
            transfers,
        } => TyModel::Func {
            environment: callable_environment_view(environment),
            params: tys_view(params),
            names: strings_view(names),
            ret: Box::new(ty_view(*ret)),
            required: required@,
            variadic: match variadic { Some(x) => Some(Box::new(ty_view(*x))), None => None },
            kw_variadic: match kw_variadic { Some(x) => Some(Box::new(ty_view(*x))), None => None },
            positional_only,
            keyword_only,
            raises,
            error: match error { Some(x) => Some(Box::new(ty_view(*x))), None => None },
            conventions: conventions@,
            ref_params: opt_ref_sigs_view(ref_params),
            ref_return: match ref_return { Some(x) => Some(Box::new(ref_sig_view(*x))), None => None },
            transfers: transfers@,
        },
        Ty::GenericFunc {
            environment,
            decls,
            params,
            names,
            ret,
            required,
            variadic,
            kw_variadic,
            positional_only,
            keyword_only,
            raises,
            error,
            conventions,
            ref_params,
            ref_return,
            transfers,
        } => TyModel::GenericFunc {
            environment: callable_environment_view(environment),
            decls: param_decls_view(decls),
            params: tys_view(params),
            names: strings_view(names),
            ret: Box::new(ty_view(*ret)),
            required: required@,
            variadic: match variadic { Some(x) => Some(Box::new(ty_view(*x))), None => None },
            kw_variadic: match kw_variadic { Some(x) => Some(Box::new(ty_view(*x))), None => None },
            positional_only,
            keyword_only,
            raises,
            error: match error { Some(x) => Some(Box::new(ty_view(*x))), None => None },
            conventions: conventions@,
            ref_params: opt_ref_sigs_view(ref_params),
            ref_return: match ref_return { Some(x) => Some(Box::new(ref_sig_view(*x))), None => None },
            transfers: transfers@,
        },
    }
}

impl View for Ty {
    type V = TyModel;

    open spec fn view(&self) -> TyModel {
        ty_view(*self)
    }
}

impl Ty {
    /// A structural copy.
    pub fn copy(&self) -> (r: Ty)
        ensures
            r@ == self@,
        decreases self,
    {
        match self {
            Ty::Int => Ty::Int,
            Ty::UInt => Ty::UInt,
            Ty::IntLiteral => Ty::IntLiteral,
            Ty::FloatLiteral => Ty::FloatLiteral,
            Ty::Float64 => Ty::Float64,
            Ty::Bool => Ty::Bool,
            Ty::StringLiteral => Ty::StringLiteral,
            Ty::NoneType => Ty::NoneType,
            Ty::Error => Ty::Error,
            Ty::Never => Ty::Never,
            Ty::Infer => Ty::Infer,
            Ty::Dtype => Ty::Dtype,
            Ty::SelfType => Ty::SelfType,
            Ty::Simd { dtype, width } => Ty::Simd { dtype: *dtype, width: *width },
            Ty::ComptimeList(a0) => Ty::ComptimeList(Box::new(a0.copy())),
            Ty::VariadicPack(a0) => Ty::VariadicPack(Box::new(a0.copy())),
            Ty::Tuple(a0) => Ty::Tuple(copy_tys(a0)),
            Ty::RuntimePack(a0) => Ty::RuntimePack(copy_tys(a0)),
            Ty::Variant(a0) => Ty::Variant(copy_tys(a0)),
            Ty::Overload(a0) => Ty::Overload(copy_tys(a0)),
            Ty::Struct(a0, a1) => Ty::Struct(a0.clone(), copy_ty_args(a1)),
            Ty::Param {
                name,
                bounds,
                callable_bound,
            } => Ty::Param {
                name: name.clone(),
                bounds: copy_strings(bounds),
                callable_bound: copy_opt_boxed_ty(callable_bound),
            },
            Ty::Pointer { element, origin } => Ty::Pointer {
                element: Box::new(element.copy()),
                origin: origin.copy(),
            },
            Ty::Ref(a0) => Ty::Ref(a0.copy()),
            Ty::Assoc { base, name, args } => Ty::Assoc {
                base: Box::new(base.copy()),
                name: name.clone(),
                args: copy_ty_args(args),
            },
            Ty::Dependent(a0) => Ty::Dependent(a0.copy()),
            Ty::Func {
                environment,
                params,
                names,
                ret,
                required,
                variadic,
                kw_variadic,
                positional_only,
                keyword_only,
                raises,
                error,
                conventions,
                ref_params,
                ref_return,
                transfers,
            } => Ty::Func {
                environment: environment.copy(),
                params: copy_tys(params),
                names: copy_strings(names),
                ret: Box::new(ret.copy()),
                required: copy_bools(required),
                variadic: copy_opt_boxed_ty(variadic),
                kw_variadic: copy_opt_boxed_ty(kw_variadic),
                positional_only: *positional_only,
                keyword_only: *keyword_only,
                raises: *raises,
                error: copy_opt_boxed_ty(error),
                conventions: copy_opt_arg_conventions(conventions),
                ref_params: copy_opt_ref_sigs(ref_params),
                ref_return: copy_opt_boxed_ref_sig(ref_return),
                transfers: copy_usizes(transfers),
            },
            Ty::GenericFunc {
                environment,
                decls,
                params,
                names,
                ret,
                required,
                variadic,
                kw_variadic,
                positional_only,
                keyword_only,
                raises,
                error,
                conventions,
                ref_params,
                ref_return,
                transfers,
            } => Ty::GenericFunc {
                environment: environment.copy(),
                decls: copy_param_decls(decls),
                params: copy_tys(params),
                names: copy_strings(names),
                ret: Box::new(ret.copy()),
                required: copy_bools(required),
                variadic: copy_opt_boxed_ty(variadic),
                kw_variadic: copy_opt_boxed_ty(kw_variadic),
                positional_only: *positional_only,
                keyword_only: *keyword_only,
                raises: *raises,
                error: copy_opt_boxed_ty(error),
                conventions: copy_opt_arg_conventions(conventions),
                ref_params: copy_opt_ref_sigs(ref_params),
                ref_return: copy_opt_boxed_ref_sig(ref_return),
                transfers: copy_usizes(transfers),
            },
        }
    }

    /// Structural equality.
    pub fn same(&self, other: &Ty) -> (r: bool)
        ensures
            r == (self@ == other@),
        decreases self,
    {
        match self {
            Ty::Int => match other { Ty::Int => true, _ => false },
            Ty::UInt => match other { Ty::UInt => true, _ => false },
            Ty::IntLiteral => match other { Ty::IntLiteral => true, _ => false },
            Ty::FloatLiteral => match other { Ty::FloatLiteral => true, _ => false },
            Ty::Float64 => match other { Ty::Float64 => true, _ => false },
            Ty::Bool => match other { Ty::Bool => true, _ => false },
            Ty::StringLiteral => match other { Ty::StringLiteral => true, _ => false },
            Ty::NoneType => match other { Ty::NoneType => true, _ => false },
            Ty::Error => match other { Ty::Error => true, _ => false },
            Ty::Never => match other { Ty::Never => true, _ => false },
            Ty::Infer => match other { Ty::Infer => true, _ => false },
            Ty::Dtype => match other { Ty::Dtype => true, _ => false },
            Ty::SelfType => match other { Ty::SelfType => true, _ => false },
            Ty::Simd { dtype, width } => match other {
                Ty::Simd { dtype: dtype2, width: width2 } => *dtype == *dtype2 && *width == *width2,
                _ => false,
            },
            Ty::ComptimeList(a0) => match other {
                Ty::ComptimeList(a02) => a0.same(a02),
                _ => false,
            },
            Ty::VariadicPack(a0) => match other {
                Ty::VariadicPack(a02) => a0.same(a02),
                _ => false,
            },
            Ty::Tuple(a0) => match other {
                Ty::Tuple(a02) => same_tys(a0, a02),
                _ => false,
            },
            Ty::RuntimePack(a0) => match other {
                Ty::RuntimePack(a02) => same_tys(a0, a02),
                _ => false,
            },
            Ty::Variant(a0) => match other {
                Ty::Variant(a02) => same_tys(a0, a02),
                _ => false,
            },
            Ty::Overload(a0) => match other {
                Ty::Overload(a02) => same_tys(a0, a02),
                _ => false,
            },
            Ty::Struct(a0, a1) => match other {
                Ty::Struct(a02, a12) => *a0 == *a02 && same_ty_args(a1, a12),
                _ => false,
            },
            Ty::Param { name, bounds, callable_bound } => match other {
                Ty::Param {
                    name: name2,
                    bounds: bounds2,
                    callable_bound: callable_bound2,
                } => *name == *name2 && same_strings(bounds, bounds2) && same_opt_boxed_ty(
                    callable_bound,
                    callable_bound2,
                ),
                _ => false,
            },
            Ty::Pointer { element, origin } => match other {
                Ty::Pointer {
                    element: element2,
                    origin: origin2,
                } => element.same(element2) && origin.same(origin2),
                _ => false,
            },
            Ty::Ref(a0) => match other {
                Ty::Ref(a02) => a0.same(a02),
                _ => false,
            },
            Ty::Assoc { base, name, args } => match other {
                Ty::Assoc {
                    base: base2,
                    name: name2,
                    args: args2,
                } => base.same(base2) && *name == *name2 && same_ty_args(args, args2),
                _ => false,
            },
            Ty::Dependent(a0) => match other {
                Ty::Dependent(a02) => a0.same(a02),
                _ => false,
            },
            Ty::Func {
                environment,
                params,
                names,
                ret,
                required,
                variadic,
                kw_variadic,
                positional_only,
                keyword_only,
                raises,
                error,
                conventions,
                ref_params,
                ref_return,
                transfers,
            } => match other {
                Ty::Func {
                    environment: environment2,
                    params: params2,
                    names: names2,
                    ret: ret2,
                    required: required2,
                    variadic: variadic2,
                    kw_variadic: kw_variadic2,
                    positional_only: positional_only2,
                    keyword_only: keyword_only2,
                    raises: raises2,
                    error: error2,
                    conventions: conventions2,
                    ref_params: ref_params2,
                    ref_return: ref_return2,
                    transfers: transfers2,
                } => environment.same(environment2)
                    && same_tys(params, params2)
                    && same_strings(names, names2)
                    && ret.same(ret2)
                    && same_bools(required, required2)
                    && same_opt_boxed_ty(variadic, variadic2)
                    && same_opt_boxed_ty(kw_variadic, kw_variadic2)
                    && *positional_only == *positional_only2
                    && *keyword_only == *keyword_only2
                    && *raises == *raises2
                    && same_opt_boxed_ty(error, error2)
                    && same_opt_arg_conventions(conventions, conventions2)
                    && same_opt_ref_sigs(ref_params, ref_params2)
                    && same_opt_boxed_ref_sig(ref_return, ref_return2)
                    && same_usizes(transfers, transfers2),
                _ => false,
            },
            Ty::GenericFunc {
                environment,
                decls,
                params,
                names,
                ret,
                required,
                variadic,
                kw_variadic,
                positional_only,
                keyword_only,
                raises,
                error,
                conventions,
                ref_params,
                ref_return,
                transfers,
            } => match other {
                Ty::GenericFunc {
                    environment: environment2,
                    decls: decls2,
                    params: params2,
                    names: names2,
                    ret: ret2,
                    required: required2,
                    variadic: variadic2,
                    kw_variadic: kw_variadic2,
                    positional_only: positional_only2,
                    keyword_only: keyword_only2,
                    raises: raises2,
                    error: error2,
                    conventions: conventions2,
                    ref_params: ref_params2,
                    ref_return: ref_return2,
                    transfers: transfers2,
                } => environment.same(environment2)
                    && same_param_decls(decls, decls2)
                    && same_tys(params, params2)
                    && same_strings(names, names2)
                    && ret.same(ret2)
                    && same_bools(required, required2)
                    && same_opt_boxed_ty(variadic, variadic2)
                    && same_opt_boxed_ty(kw_variadic, kw_variadic2)
                    && *positional_only == *positional_only2
                    && *keyword_only == *keyword_only2
                    && *raises == *raises2
                    && same_opt_boxed_ty(error, error2)
                    && same_opt_arg_conventions(conventions, conventions2)
                    && same_opt_ref_sigs(ref_params, ref_params2)
                    && same_opt_boxed_ref_sig(ref_return, ref_return2)
                    && same_usizes(transfers, transfers2),
                _ => false,
            },
        }
    }
}

impl Clone for Ty {
    fn clone(&self) -> (r: Ty)
        ensures
            r@ == self@,
    {
        self.copy()
    }
}

/// The model of a [`TyArg`].
pub open spec fn ty_arg_view(x: TyArg) -> TyArgModel
    decreases x,
{
    match x {
        TyArg::Ty(a0) => TyArgModel::Ty(ty_view(a0)),
        TyArg::Val(a0) => TyArgModel::Val(ct_value_view(a0)),
        TyArg::Origin(a0) => TyArgModel::Origin(origin_view(a0)),
    }
}

impl View for TyArg {
    type V = TyArgModel;

    open spec fn view(&self) -> TyArgModel {
        ty_arg_view(*self)
    }
}

impl TyArg {
    /// A structural copy.
    pub fn copy(&self) -> (r: TyArg)
        ensures
            r@ == self@,
        decreases self,
    {
        match self {
            TyArg::Ty(a0) => TyArg::Ty(a0.copy()),
            TyArg::Val(a0) => TyArg::Val(a0.copy()),
            TyArg::Origin(a0) => TyArg::Origin(a0.copy()),
        }
    }

    /// Structural equality.
    pub fn same(&self, other: &TyArg) -> (r: bool)
        ensures
            r == (self@ == other@),
        decreases self,
    {
        match self {
            TyArg::Ty(a0) => match other {
                TyArg::Ty(a02) => a0.same(a02),
                _ => false,
            },
            TyArg::Val(a0) => match other {
                TyArg::Val(a02) => a0.same(a02),
                _ => false,
            },
            TyArg::Origin(a0) => match other {
                TyArg::Origin(a02) => a0.same(a02),
                _ => false,
            },
        }
    }
}

impl Clone for TyArg {
    fn clone(&self) -> (r: TyArg)
        ensures
            r@ == self@,
    {
        self.copy()
    }
}

/// The model of a [`DependentType`].
pub open spec fn dependent_type_view(x: DependentType) -> DependentTypeModel
    decreases x,
{
    match x {
        DependentType::Indexed { elements, index } => DependentTypeModel::Indexed {
            elements: tys_view(elements),
            index: ct_expr_view(index),
        },
    }
}

impl View for DependentType {
    type V = DependentTypeModel;

    open spec fn view(&self) -> DependentTypeModel {
        dependent_type_view(*self)
    }
}

impl DependentType {
    /// A structural copy.
    pub fn copy(&self) -> (r: DependentType)
        ensures
            r@ == self@,
        decreases self,
    {
        match self {
            DependentType::Indexed { elements, index } => DependentType::Indexed {
                elements: copy_tys(elements),
                index: index.copy(),
            },
        }
    }

    /// Structural equality.
    pub fn same(&self, other: &DependentType) -> (r: bool)
        ensures
            r == (self@ == other@),
        decreases self,
    {
        match self {
            DependentType::Indexed { elements, index } => match other {
                DependentType::Indexed {
                    elements: elements2,
                    index: index2,
                } => same_tys(elements, elements2) && index.same(index2),
            },
        }
    }
}

impl Clone for DependentType {
    fn clone(&self) -> (r: DependentType)
        ensures
            r@ == self@,
    {
        self.copy()
    }
}

/// The model of a [`ParamDecl`].
pub open spec fn param_decl_view(x: ParamDecl) -> ParamDeclModel
    decreases x,
{
    match x {
        ParamDecl::Type {
            name,
            default,
            infer_only,
            variadic,
        } => ParamDeclModel::Type {
            name: name@,
            default: match default { Some(x) => Some(Box::new(ty_view(*x))), None => None },
            infer_only,
            variadic,
        },
        ParamDecl::Value {
            name,
            ty,
            default,
            callable_default,
            infer_only,
            variadic,
        } => ParamDeclModel::Value {
            name: name@,
            ty: Box::new(ty_view(*ty)),
            default: match default { Some(x) => Some(ct_expr_view(x)), None => None },
            callable_default: match callable_default { Some(x) => Some(x@), None => None },
            infer_only,
            variadic,
        },
    }
}

impl View for ParamDecl {
    type V = ParamDeclModel;

    open spec fn view(&self) -> ParamDeclModel {
        param_decl_view(*self)
    }
}

impl ParamDecl {
    /// A structural copy.
    pub fn copy(&self) -> (r: ParamDecl)
        ensures
            r@ == self@,
        decreases self,
    {
        match self {
            ParamDecl::Type {
                name,
                default,
                infer_only,
                variadic,
            } => ParamDecl::Type {
                name: name.clone(),
                default: copy_opt_boxed_ty(default),
                infer_only: *infer_only,
                variadic: *variadic,
            },
            ParamDecl::Value {
                name,
                ty,
                default,
                callable_default,
                infer_only,
                variadic,
            } => ParamDecl::Value {
                name: name.clone(),
                ty: Box::new(ty.copy()),
                default: copy_opt_ct_expr(default),
                callable_default: copy_opt_string(callable_default),
                infer_only: *infer_only,
                variadic: *variadic,
            },
        }
    }

    /// Structural equality.
    pub fn same(&self, other: &ParamDecl) -> (r: bool)
        ensures
            r == (self@ == other@),
        decreases self,
    {
        match self {
            ParamDecl::Type { name, default, infer_only, variadic } => match other {
                ParamDecl::Type {
                    name: name2,
                    default: default2,
                    infer_only: infer_only2,
                    variadic: variadic2,
                } => *name == *name2
                    && same_opt_boxed_ty(default, default2)
                    && *infer_only == *infer_only2
                    && *variadic == *variadic2,
                _ => false,
            },
            ParamDecl::Value { name, ty, default, callable_default, infer_only, variadic } => match other {
                ParamDecl::Value {
                    name: name2,
                    ty: ty2,
                    default: default2,
                    callable_default: callable_default2,
                    infer_only: infer_only2,
                    variadic: variadic2,
                } => *name == *name2
                    && ty.same(ty2)
                    && same_opt_ct_expr(default, default2)
                    && same_opt_string(
                    callable_default,
                    callable_default2,
                ) && *infer_only == *infer_only2 && *variadic == *variadic2,
                _ => false,
            },
        }
    }
}

impl Clone for ParamDecl {
    fn clone(&self) -> (r: ParamDecl)
        ensures
            r@ == self@,
    {
        self.copy()
    }
}

/// Model of a `Vec<ParamDecl>`.
pub open spec fn param_decls_view(v: Vec<ParamDecl>) -> Seq<ParamDeclModel>
    decreases v,
{
    Seq::new(v@.len(), |i: int| if 0 <= i < v@.len() { param_decl_view(v@[i]) } else { arbitrary() })
}

pub fn copy_param_decls(v: &Vec<ParamDecl>) -> (r: Vec<ParamDecl>)
    ensures
        param_decls_view(r) == param_decls_view(*v),
    decreases v,
{
    let mut out: Vec<ParamDecl> = Vec::new();
    for i in 0..v.len()
        invariant
            out@.len() == i,
            forall|j: int| 0 <= j < i ==> param_decls_view(out)[j] == param_decls_view(*v)[j],
    {
        let ghost before = out;
        out.push(v[i].copy());
        assert forall|j: int| 0 <= j < i + 1 implies param_decls_view(out)[j] == param_decls_view(*v)[j] by {
            if j < i {
                assert(out@[j] == before@[j]);
                assert(param_decls_view(before)[j] == param_decls_view(*v)[j]);
            }
        }
    }
    assert(param_decls_view(out) =~= param_decls_view(*v));
    out
}

pub fn same_param_decls(a: &Vec<ParamDecl>, b: &Vec<ParamDecl>) -> (r: bool)
    ensures
        r == (param_decls_view(*a) == param_decls_view(*b)),
    decreases a,
{
    if a.len() != b.len() {
        assert(param_decls_view(*a).len() != param_decls_view(*b).len());
        return false;
    }
    for i in 0..a.len()
        invariant
            a@.len() == b@.len(),
            forall|j: int| 0 <= j < i ==> param_decls_view(*a)[j] == param_decls_view(*b)[j],
    {
        if !(a[i].same(&b[i])) {
            assert(param_decls_view(*a)[i as int] != param_decls_view(*b)[i as int]);
            return false;
        }
    }
    assert(param_decls_view(*a) =~= param_decls_view(*b));
    true
}

/// Model of a `Vec<Ty>`.
pub open spec fn tys_view(v: Vec<Ty>) -> Seq<TyModel>
    decreases v,
{
    Seq::new(v@.len(), |i: int| if 0 <= i < v@.len() { ty_view(v@[i]) } else { arbitrary() })
}

pub fn copy_tys(v: &Vec<Ty>) -> (r: Vec<Ty>)
    ensures
        tys_view(r) == tys_view(*v),
    decreases v,
{
    let mut out: Vec<Ty> = Vec::new();
    for i in 0..v.len()
        invariant
            out@.len() == i,
            forall|j: int| 0 <= j < i ==> tys_view(out)[j] == tys_view(*v)[j],
    {
        let ghost before = out;
        out.push(v[i].copy());
        assert forall|j: int| 0 <= j < i + 1 implies tys_view(out)[j] == tys_view(*v)[j] by {
            if j < i {
                assert(out@[j] == before@[j]);
                assert(tys_view(before)[j] == tys_view(*v)[j]);
            }
        }
    }
    assert(tys_view(out) =~= tys_view(*v));
    out
}

pub fn same_tys(a: &Vec<Ty>, b: &Vec<Ty>) -> (r: bool)
    ensures
        r == (tys_view(*a) == tys_view(*b)),
    decreases a,
{
    if a.len() != b.len() {
        assert(tys_view(*a).len() != tys_view(*b).len());
        return false;
    }
    for i in 0..a.len()
        invariant
            a@.len() == b@.len(),
            forall|j: int| 0 <= j < i ==> tys_view(*a)[j] == tys_view(*b)[j],
    {
        if !(a[i].same(&b[i])) {
            assert(tys_view(*a)[i as int] != tys_view(*b)[i as int]);
            return false;
        }
    }
    assert(tys_view(*a) =~= tys_view(*b));
    true
}

/// Model of a `Vec<TyArg>`.
pub open spec fn ty_args_view(v: Vec<TyArg>) -> Seq<TyArgModel>
    decreases v,
{
    Seq::new(v@.len(), |i: int| if 0 <= i < v@.len() { ty_arg_view(v@[i]) } else { arbitrary() })
}

pub fn copy_ty_args(v: &Vec<TyArg>) -> (r: Vec<TyArg>)
    ensures
        ty_args_view(r) == ty_args_view(*v),
    decreases v,
{
    let mut out: Vec<TyArg> = Vec::new();
    for i in 0..v.len()
        invariant
            out@.len() == i,
            forall|j: int| 0 <= j < i ==> ty_args_view(out)[j] == ty_args_view(*v)[j],
    {
        let ghost before = out;
        out.push(v[i].copy());
        assert forall|j: int| 0 <= j < i + 1 implies ty_args_view(out)[j] == ty_args_view(*v)[j] by {
            if j < i {
                assert(out@[j] == before@[j]);
                assert(ty_args_view(before)[j] == ty_args_view(*v)[j]);
            }
        }
    }
    assert(ty_args_view(out) =~= ty_args_view(*v));
    out
}

pub fn same_ty_args(a: &Vec<TyArg>, b: &Vec<TyArg>) -> (r: bool)
    ensures
        r == (ty_args_view(*a) == ty_args_view(*b)),
    decreases a,
{
    if a.len() != b.len() {
        assert(ty_args_view(*a).len() != ty_args_view(*b).len());
        return false;
    }
    for i in 0..a.len()
        invariant
            a@.len() == b@.len(),
            forall|j: int| 0 <= j < i ==> ty_args_view(*a)[j] == ty_args_view(*b)[j],
    {
        if !(a[i].same(&b[i])) {
            assert(ty_args_view(*a)[i as int] != ty_args_view(*b)[i as int]);
            return false;
        }
    }
    assert(ty_args_view(*a) =~= ty_args_view(*b));
    true
}

/// Model of an `Option<Box<Ty>>`.
pub open spec fn opt_boxed_ty_view(v: Option<Box<Ty>>) -> Option<Box<TyModel>> {
    match v {
        Some(x) => Some(Box::new(ty_view(*x))),
        None => None,
    }
}

pub fn copy_opt_boxed_ty(v: &Option<Box<Ty>>) -> (r: Option<Box<Ty>>)
    ensures
        opt_boxed_ty_view(r) == opt_boxed_ty_view(*v),
    decreases v,
{
    match v {
        Some(x) => Some(Box::new(x.copy())),
        None => None,
    }
}

pub fn same_opt_boxed_ty(a: &Option<Box<Ty>>, b: &Option<Box<Ty>>) -> (r: bool)
    ensures
        r == (opt_boxed_ty_view(*a) == opt_boxed_ty_view(*b)),
    decreases a,
{
    match a {
        Some(x) => match b {
            Some(y) => x.same(y),
            None => false,
        },
        None => match b {
            Some(_) => false,
            None => true,
        },
    }
}

/// Model of an `Option<Ty>`.
pub open spec fn opt_ty_view(v: Option<Ty>) -> Option<TyModel> {
    match v {
        Some(x) => Some(ty_view(x)),
        None => None,
    }
}

pub fn copy_opt_ty(v: &Option<Ty>) -> (r: Option<Ty>)
    ensures
        opt_ty_view(r) == opt_ty_view(*v),
    decreases v,
{
    match v {
        Some(x) => Some(x.copy()),
        None => None,
    }
}

pub fn same_opt_ty(a: &Option<Ty>, b: &Option<Ty>) -> (r: bool)
    ensures
        r == (opt_ty_view(*a) == opt_ty_view(*b)),
    decreases a,
{
    match a {
        Some(x) => match b {
            Some(y) => x.same(y),
            None => false,
        },
        None => match b {
            Some(_) => false,
            None => true,
        },
    }
}

/// Model of an `Option<Vec<Ty>>`.
pub open spec fn opt_tys_view(v: Option<Vec<Ty>>) -> Option<Seq<TyModel>> {
    match v {
        Some(x) => Some(tys_view(x)),
        None => None,
    }
}

pub fn copy_opt_tys(v: &Option<Vec<Ty>>) -> (r: Option<Vec<Ty>>)
    ensures
        opt_tys_view(r) == opt_tys_view(*v),
    decreases v,
{
    match v {
        Some(x) => Some(copy_tys(x)),
        None => None,
    }
}

/// Model of a `Vec<(String, Ty)>`.
pub open spec fn string_tys_view(v: Vec<(String, Ty)>) -> Seq<(Seq<char>, TyModel)>
    decreases v,
{
    Seq::new(v@.len(), |i: int| if 0 <= i < v@.len() { (v@[i].0@, ty_view(v@[i].1)) } else { arbitrary() })
}

pub fn copy_string_tys(v: &Vec<(String, Ty)>) -> (r: Vec<(String, Ty)>)
    ensures
        string_tys_view(r) == string_tys_view(*v),
    decreases v,
{
    let mut out: Vec<(String, Ty)> = Vec::new();
    for i in 0..v.len()
        invariant
            out@.len() == i,
            forall|j: int| 0 <= j < i ==> string_tys_view(out)[j] == string_tys_view(*v)[j],
    {
        let ghost before = out;
        out.push((v[i].0.clone(), v[i].1.copy()));
        assert forall|j: int| 0 <= j < i + 1 implies string_tys_view(out)[j] == string_tys_view(*v)[j] by {
            if j < i {
                assert(out@[j] == before@[j]);
                assert(string_tys_view(before)[j] == string_tys_view(*v)[j]);
            }
        }
    }
    assert(string_tys_view(out) =~= string_tys_view(*v));
    out
}

pub fn same_string_tys(a: &Vec<(String, Ty)>, b: &Vec<(String, Ty)>) -> (r: bool)
    ensures
        r == (string_tys_view(*a) == string_tys_view(*b)),
    decreases a,
{
    if a.len() != b.len() {
        assert(string_tys_view(*a).len() != string_tys_view(*b).len());
        return false;
    }
    for i in 0..a.len()
        invariant
            a@.len() == b@.len(),
            forall|j: int| 0 <= j < i ==> string_tys_view(*a)[j] == string_tys_view(*b)[j],
    {
        if !(a[i].0 == b[i].0 && a[i].1.same(&b[i].1)) {
            assert(string_tys_view(*a)[i as int] != string_tys_view(*b)[i as int]);
            return false;
        }
    }
    assert(string_tys_view(*a) =~= string_tys_view(*b));
    true
}

/// Model of a `Vec<(u32, Ty)>`.
pub open spec fn u32_tys_view(v: Vec<(u32, Ty)>) -> Seq<(u32, TyModel)>
    decreases v,
{
    Seq::new(v@.len(), |i: int| if 0 <= i < v@.len() { (v@[i].0, ty_view(v@[i].1)) } else { arbitrary() })
}

pub fn copy_u32_tys(v: &Vec<(u32, Ty)>) -> (r: Vec<(u32, Ty)>)
    ensures
        u32_tys_view(r) == u32_tys_view(*v),
    decreases v,
{
    let mut out: Vec<(u32, Ty)> = Vec::new();
    for i in 0..v.len()
        invariant
            out@.len() == i,
            forall|j: int| 0 <= j < i ==> u32_tys_view(out)[j] == u32_tys_view(*v)[j],
    {
        let ghost before = out;
        out.push((v[i].0, v[i].1.copy()));
        assert forall|j: int| 0 <= j < i + 1 implies u32_tys_view(out)[j] == u32_tys_view(*v)[j] by {
            if j < i {
                assert(out@[j] == before@[j]);
                assert(u32_tys_view(before)[j] == u32_tys_view(*v)[j]);
            }
        }
    }
    assert(u32_tys_view(out) =~= u32_tys_view(*v));
    out
}

/// Model of an `Option<(String, Ty)>`.
pub open spec fn opt_string_ty_view(v: Option<(String, Ty)>) -> Option<(Seq<char>, TyModel)> {
    match v {
        Some(x) => Some((x.0@, ty_view(x.1))),
        None => None,
    }
}

/// The spelling of a SIMD type: its scalar alias at width one, where it has one.
pub open spec fn simd_text(dtype: Dtype, width: i64) -> Seq<char> {
    if width == 1 && dtype_scalar_alias(dtype) is Some {
        dtype_scalar_alias(dtype)->Some_0
    } else {
        "SIMD[DType."@ + dtype_name(dtype) + ", "@ + dec_int(width as int) + "]"@
    }
}

/// The spelling of a type. Origins and callable environments are not spelled,
/// and a literal spells as the type it becomes.
pub open spec fn ty_text(ty: TyModel) -> Seq<char>
    decreases ty, 0int,
{
    match ty {
        TyModel::Int => "Int"@,
        TyModel::UInt => "UInt"@,
        TyModel::IntLiteral => "Int"@,
        TyModel::FloatLiteral => "Float64"@,
        TyModel::Float64 => "Float64"@,
        TyModel::Bool => "Bool"@,
        TyModel::StringLiteral => "StringLiteral"@,
        TyModel::NoneType => "None"@,
        TyModel::Error => "Error"@,
        TyModel::Never => "Never"@,
        TyModel::Infer => "_"@,
        TyModel::Dtype => "DType"@,
        TyModel::SelfType => "Self"@,
        TyModel::Simd { dtype, width } => simd_text(dtype, width),
        TyModel::ComptimeList(element) => "ComptimeList["@ + ty_text(*element) + "]"@,
        TyModel::VariadicPack(element) => "VariadicPack["@ + ty_text(*element) + "]"@,
        TyModel::Tuple(elements) => "Tuple["@ + join(ty_texts(elements), ", "@) + "]"@,
        TyModel::RuntimePack(elements) => "RuntimePack["@ + join(ty_texts(elements), ", "@) + "]"@,
        TyModel::Variant(elements) => "Variant["@ + join(ty_texts(elements), ", "@) + "]"@,
        TyModel::Overload(elements) => "Overload["@ + join(ty_texts(elements), ", "@) + "]"@,
        TyModel::Struct(name, args) => name + application_text(args),
        TyModel::Param { name, .. } => name,
        TyModel::Pointer { element, .. } => "UnsafePointer["@ + ty_text(*element) + "]"@,
        TyModel::Ref(reference) => "ref "@ + ty_text(*reference.referent),
        TyModel::Assoc { base, name, args } => ty_text(*base) + "."@ + name + application_text(args),
        TyModel::Dependent(
            DependentTypeModel::Indexed { elements, .. }
        ) => "Dependent["@ + join(ty_texts(elements), ", "@)
            + "]"@,
        TyModel::Func { params, ret, raises, .. } => "def("@ + join(ty_texts(params), ", "@) + (if raises {
            ") raises -> "@
        } else {
            ") -> "@
        }) + ty_text(*ret),
        TyModel::GenericFunc { params, ret, raises, .. } => "def[..]("@ + join(ty_texts(params), ", "@) + (if raises {
            ") raises -> "@
        } else {
            ") -> "@
        }) + ty_text(*ret),
    }
}

/// The spellings of the types.
pub open spec fn ty_texts(tys: Seq<TyModel>) -> Seq<Seq<char>>
    decreases tys, 0int,
{
    Seq::new(tys.len(), |i: int| if 0 <= i < tys.len() { ty_text(tys[i]) } else { arbitrary() })
}

/// The spelling of one argument of a generic application.
pub open spec fn ty_arg_text(arg: TyArgModel) -> Seq<char>
    decreases arg, 0int,
{
    match arg {
        TyArgModel::Ty(ty) => ty_text(ty),
        TyArgModel::Val(value) => ct_value_text(value),
        TyArgModel::Origin(_) => "_"@,
    }
}

/// The spelling of an argument list: nothing where it is empty.
pub open spec fn application_text(args: Seq<TyArgModel>) -> Seq<char>
    decreases args, 1int,
{
    if args.len() == 0 {
        Seq::empty()
    } else {
        "["@ + join(ty_arg_texts(args), ", "@) + "]"@
    }
}

/// The spellings of the arguments.
pub open spec fn ty_arg_texts(args: Seq<TyArgModel>) -> Seq<Seq<char>>
    decreases args, 0int,
{
    Seq::new(args.len(), |i: int| if 0 <= i < args.len() { ty_arg_text(args[i]) } else { arbitrary() })
}

/// The spelling of a SIMD type.
pub fn simd_spelling(dtype: Dtype, width: i64) -> (r: String)
    ensures
        r@ == simd_text(dtype, width),
{
    if width == 1 {
        if let Some(name) = dtype.scalar_alias() {
            return name.to_owned();
        }
    }
    cat5("SIMD[DType.", dtype.name(), ", ", &dec_text_i64(width), "]")
}

fn joined_tys(tys: &Vec<Ty>) -> (r: String)
    ensures
        r@ == join(ty_texts(tys_view(*tys)), ", "@),
    decreases tys,
{
    let mut s: String = String::new();
    let ghost texts = ty_texts(tys_view(*tys));
    for i in 0..tys.len()
        invariant
            texts == ty_texts(tys_view(*tys)),
            s@ == join(texts.take(i as int), ", "@),
    {
        assert(texts.take(i + 1) =~= texts.take(i as int).push(texts[i as int]));
        let part: String = tys[i].text();
        join_push(&mut s, i == 0, ", ", &part, Ghost(texts.take(i as int)));
    }
    assert(texts.take(texts.len() as int) =~= texts);
    s
}

fn application(args: &Vec<TyArg>) -> (r: String)
    ensures
        r@ == application_text(ty_args_view(*args)),
    decreases args,
{
    if args.len() == 0 {
        return String::new();
    }
    let mut s: String = String::new();
    let ghost model = ty_args_view(*args);
    let ghost texts = ty_arg_texts(model);
    for i in 0..args.len()
        invariant
            model == ty_args_view(*args),
            texts == ty_arg_texts(model),
            s@ == join(texts.take(i as int), ", "@),
    {
        assert(texts.take(i + 1) =~= texts.take(i as int).push(texts[i as int]));
        let part: String = match &args[i] {
            TyArg::Ty(ty) => ty.text(),
            TyArg::Val(value) => value.text(),
            TyArg::Origin(_) => "_".to_owned(),
        };
        join_push(&mut s, i == 0, ", ", &part, Ghost(texts.take(i as int)));
    }
    assert(texts.take(texts.len() as int) =~= texts);
    cat3("[", &s, "]")
}

impl Ty {
    /// The spelling of the type.
    pub fn text(&self) -> (r: String)
        ensures
            r@ == ty_text(self@),
        decreases self,
    {
        match self {
            Ty::Int => "Int".to_owned(),
            Ty::UInt => "UInt".to_owned(),
            Ty::IntLiteral => "Int".to_owned(),
            Ty::FloatLiteral => "Float64".to_owned(),
            Ty::Float64 => "Float64".to_owned(),
            Ty::Bool => "Bool".to_owned(),
            Ty::StringLiteral => "StringLiteral".to_owned(),
            Ty::NoneType => "None".to_owned(),
            Ty::Error => "Error".to_owned(),
            Ty::Never => "Never".to_owned(),
            Ty::Infer => "_".to_owned(),
            Ty::Dtype => "DType".to_owned(),
            Ty::SelfType => "Self".to_owned(),
            Ty::Simd { dtype, width } => simd_spelling(*dtype, *width),
            Ty::ComptimeList(element) => cat3("ComptimeList[", &element.text(), "]"),
            Ty::VariadicPack(element) => cat3("VariadicPack[", &element.text(), "]"),
            Ty::Tuple(elements) => cat3("Tuple[", &joined_tys(elements), "]"),
            Ty::RuntimePack(elements) => cat3("RuntimePack[", &joined_tys(elements), "]"),
            Ty::Variant(elements) => cat3("Variant[", &joined_tys(elements), "]"),
            Ty::Overload(elements) => cat3("Overload[", &joined_tys(elements), "]"),
            Ty::Struct(name, args) => cat2(name, &application(args)),
            Ty::Param { name, .. } => name.clone(),
            Ty::Pointer { element, .. } => cat3("UnsafePointer[", &element.text(), "]"),
            Ty::Ref(reference) => {
                assert(*reference@.referent == reference.referent@);
                cat2("ref ", &reference.referent.text())
            },
            Ty::Assoc { base, name, args } => cat4(&base.text(), ".", name, &application(args)),
            Ty::Dependent(dependent) => match dependent {
                DependentType::Indexed { elements, .. } => {
                    assert(dependent@->elements == tys_view(*elements));
                    cat3("Dependent[", &joined_tys(elements), "]")
                },
            },
            Ty::Func { params, ret, raises, .. } => cat4(
                "def(",
                &joined_tys(params),
                if *raises { ") raises -> " } else { ") -> " },
                &ret.text(),
            ),
            Ty::GenericFunc { params, ret, raises, .. } => cat4(
                "def[..](",
                &joined_tys(params),
                if *raises { ") raises -> " } else { ") -> " },
                &ret.text(),
            ),
        }
    }
}

impl ParamDecl {
    /// The declared name.
    pub fn name(&self) -> (r: &String)
        ensures
            r@ == decl_name(self@),
    {
        match self {
            ParamDecl::Type { name, .. } => name,
            ParamDecl::Value { name, .. } => name,
        }
    }
}

/// The name a parameter declaration declares.
pub open spec fn decl_name(decl: ParamDeclModel) -> Seq<char> {
    match decl {
        ParamDeclModel::Type { name, .. } => name,
        ParamDeclModel::Value { name, .. } => name,
    }
}

} // verus!
