//! Solving template parameters against concrete types.

use crate::ast::copy_opt_arg_conventions;
use crate::ct::{CtValue, CtValueModel, ct_value_text};
use crate::data::{copy_bools, copy_strings, copy_usizes, same_bools};
use crate::debug::{ct_value_debug, debug_ct_value, debug_ty, ty_debug};
use crate::literal::{FloatLiteral, IntLiteral};
use crate::native::mono::bindings::{Bindings, BindingsModel};
use crate::origin::{
    CallableEnvironment, CallableEnvironmentModel, RefTy, RefTyModel, copy_opt_boxed_ref_sig,
    copy_opt_ref_sigs,
};
use crate::symbol::{nominal_template, template_of};
use crate::text::{cat2, cat3, cat4, cat5, cat7, str_eq};
use crate::types::{
    ParamDecl, ParamDeclModel, Ty, TyArg, TyArgModel, TyModel, decl_name, opt_boxed_ty_view,
    param_decls_view, string_tys_view, ty_args_view, ty_text, tys_view,
};
use vstd::prelude::*;

verus! {

/// Whether a type still depends on something that has no solution.
pub open spec fn symbolic(ty: TyModel) -> bool
    decreases ty,
{
    match ty {
        TyModel::Infer | TyModel::SelfType => true,
        TyModel::Param { .. } => true,
        TyModel::Assoc { .. } => true,
        TyModel::Dependent(_) => true,
        TyModel::GenericFunc { .. } => true,
        TyModel::Struct(_, args) => any_symbolic_arg(args),
        TyModel::Tuple(v) => any_symbolic(v),
        TyModel::RuntimePack(v) => any_symbolic(v),
        TyModel::Variant(v) => any_symbolic(v),
        TyModel::Overload(v) => any_symbolic(v),
        TyModel::ComptimeList(v) => symbolic(*v),
        TyModel::VariadicPack(v) => symbolic(*v),
        TyModel::Pointer { element, .. } => symbolic(*element),
        TyModel::Ref(v) => symbolic(*v.referent),
        TyModel::Func { params, ret, variadic, kw_variadic, error, .. } => {
            ||| any_symbolic(params)
            ||| symbolic(*ret)
            ||| (variadic is Some && symbolic(*variadic->Some_0))
            ||| (kw_variadic is Some && symbolic(*kw_variadic->Some_0))
            ||| (error is Some && symbolic(*error->Some_0))
        },
        _ => false,
    }
}

/// Whether one of the types is symbolic.
pub open spec fn any_symbolic(tys: Seq<TyModel>) -> bool
    decreases tys,
{
    exists|i: int| 0 <= i < tys.len() && symbolic(#[trigger] tys[i])
}

/// Whether one of the application arguments is symbolic.
pub open spec fn any_symbolic_arg(args: Seq<TyArgModel>) -> bool
    decreases args,
{
    exists|i: int| 0 <= i < args.len() && symbolic_arg(#[trigger] args[i])
}

/// Whether an application argument is symbolic.
pub open spec fn symbolic_arg(arg: TyArgModel) -> bool
    decreases arg,
{
    match arg {
        TyArgModel::Ty(ty) => symbolic(ty),
        TyArgModel::Val(CtValueModel::Param(_)) => true,
        _ => false,
    }
}

fn is_any_symbolic(tys: &Vec<Ty>) -> (r: bool)
    ensures
        r == any_symbolic(tys_view(*tys)),
    decreases tys,
{
    let ghost model = tys_view(*tys);
    for i in 0..tys.len()
        invariant
            model == tys_view(*tys),
            forall|j: int| 0 <= j < i ==> !symbolic(#[trigger] model[j]),
    {
        if is_symbolic(&tys[i]) {
            assert(symbolic(model[i as int]));
            return true;
        }
    }
    false
}

/// Whether one of the application arguments is symbolic.
pub fn is_any_arg_symbolic(args: &Vec<TyArg>) -> (r: bool)
    ensures
        r == any_symbolic_arg(ty_args_view(*args)),
    decreases args,
{
    let ghost model = ty_args_view(*args);
    for i in 0..args.len()
        invariant
            model == ty_args_view(*args),
            forall|j: int| 0 <= j < i ==> !symbolic_arg(#[trigger] model[j]),
    {
        if arg_has_symbolic(&args[i]) {
            assert(symbolic_arg(model[i as int]));
            return true;
        }
    }
    false
}

fn is_opt_symbolic(ty: &Option<Box<Ty>>) -> (r: bool)
    ensures
        r == (opt_boxed_ty_view(*ty) is Some && symbolic(*opt_boxed_ty_view(*ty)->Some_0)),
    decreases ty,
{
    match ty {
        Some(ty) => is_symbolic(ty),
        None => false,
    }
}

/// Whether the type is symbolic.
pub fn is_symbolic(ty: &Ty) -> (r: bool)
    ensures
        r == symbolic(ty@),
    decreases ty,
{
    match ty {
        Ty::Infer | Ty::SelfType => true,
        Ty::Param { .. } => true,
        Ty::Assoc { .. } => true,
        Ty::Dependent(_) => true,
        Ty::GenericFunc { .. } => true,
        Ty::Struct(_, args) => is_any_arg_symbolic(args),
        Ty::Tuple(v) => is_any_symbolic(v),
        Ty::RuntimePack(v) => is_any_symbolic(v),
        Ty::Variant(v) => is_any_symbolic(v),
        Ty::Overload(v) => is_any_symbolic(v),
        Ty::ComptimeList(v) => is_symbolic(v),
        Ty::VariadicPack(v) => is_symbolic(v),
        Ty::Pointer { element, .. } => is_symbolic(element),
        Ty::Ref(v) => {
            assert(*v@.referent == v.referent@);
            is_symbolic(&v.referent)
        },
        Ty::Func {
            params,
            ret,
            variadic,
            kw_variadic,
            error,
            ..
        } => is_any_symbolic(params) || is_symbolic(ret)
            || is_opt_symbolic(variadic) || is_opt_symbolic(kw_variadic) || is_opt_symbolic(error),
        _ => false,
    }
}

/// Whether the application argument is symbolic.
pub fn arg_has_symbolic(arg: &TyArg) -> (r: bool)
    ensures
        r == symbolic_arg(arg@),
    decreases arg,
{
    match arg {
        TyArg::Ty(ty) => is_symbolic(ty),
        TyArg::Val(value) => match value {
            CtValue::Param(_) => true,
            _ => false,
        },
        TyArg::Origin(_) => false,
    }
}

/// Whether two field types are the same up to what is behind a pointer: every
/// pointer is one opaque word.
pub open spec fn equivalent(a: TyModel, b: TyModel) -> bool
    decreases a,
{
    match (a, b) {
        (TyModel::Pointer { .. }, TyModel::Pointer { .. }) => true,
        (TyModel::Struct(a_name, a_args), TyModel::Struct(b_name, b_args)) => a_name == b_name && equivalent_args(
            a_args,
            b_args,
        ),
        (TyModel::Tuple(x), TyModel::Tuple(y)) => all_equivalent(x, y),
        (TyModel::RuntimePack(x), TyModel::RuntimePack(y)) => all_equivalent(x, y),
        _ => a == b,
    }
}

/// Whether the two lists are equivalent element by element.
pub open spec fn all_equivalent(a: Seq<TyModel>, b: Seq<TyModel>) -> bool
    decreases a,
{
    a.len() == b.len() && forall|i: int| 0 <= i < a.len() ==> equivalent(#[trigger] a[i], b[i])
}

/// Whether two application arguments are equivalent: values and origins have to
/// be equal.
pub open spec fn equivalent_arg(a: TyArgModel, b: TyArgModel) -> bool
    decreases a,
{
    match (a, b) {
        (TyArgModel::Ty(x), TyArgModel::Ty(y)) => equivalent(x, y),
        _ => a == b,
    }
}

/// Whether the two argument lists are equivalent element by element.
pub open spec fn equivalent_args(a: Seq<TyArgModel>, b: Seq<TyArgModel>) -> bool
    decreases a,
{
    a.len() == b.len() && forall|i: int| 0 <= i < a.len() ==> equivalent_arg(#[trigger] a[i], b[i])
}

fn tys_equivalent(a: &Vec<Ty>, b: &Vec<Ty>) -> (r: bool)
    ensures
        r == all_equivalent(tys_view(*a), tys_view(*b)),
    decreases a,
{
    let ghost (x, y) = (tys_view(*a), tys_view(*b));
    if a.len() != b.len() {
        return false;
    }
    for i in 0..a.len()
        invariant
            x == tys_view(*a),
            y == tys_view(*b),
            a@.len() == b@.len(),
            forall|j: int| 0 <= j < i ==> equivalent(#[trigger] x[j], y[j]),
    {
        if !ty_equivalent(&a[i], &b[i]) {
            assert(!equivalent(x[i as int], y[i as int]));
            return false;
        }
    }
    true
}

fn args_equivalent(a: &Vec<TyArg>, b: &Vec<TyArg>) -> (r: bool)
    ensures
        r == equivalent_args(ty_args_view(*a), ty_args_view(*b)),
    decreases a,
{
    let ghost (x, y) = (ty_args_view(*a), ty_args_view(*b));
    if a.len() != b.len() {
        return false;
    }
    for i in 0..a.len()
        invariant
            x == ty_args_view(*a),
            y == ty_args_view(*b),
            a@.len() == b@.len(),
            forall|j: int| 0 <= j < i ==> equivalent_arg(#[trigger] x[j], y[j]),
    {
        let same: bool = match (&a[i], &b[i]) {
            (TyArg::Ty(s), TyArg::Ty(t)) => ty_equivalent(s, t),
            (s, t) => s.same(t),
        };
        if !same {
            assert(!equivalent_arg(x[i as int], y[i as int]));
            return false;
        }
    }
    true
}

/// Whether two field types are the same up to what is behind a pointer.
pub fn ty_equivalent(a: &Ty, b: &Ty) -> (r: bool)
    ensures
        r == equivalent(a@, b@),
    decreases a,
{
    match (a, b) {
        (Ty::Pointer { .. }, Ty::Pointer { .. }) => true,
        (
            Ty::Struct(a_name, a_args),
            Ty::Struct(b_name, b_args),
        ) => *a_name == *b_name && args_equivalent(a_args, b_args),
        (Ty::Tuple(x), Ty::Tuple(y)) => tys_equivalent(x, y),
        (Ty::RuntimePack(x), Ty::RuntimePack(y)) => tys_equivalent(x, y),
        _ => a.same(b),
    }
}

/// Whether two field lists may share one struct instance: the same names in the
/// same order, at equivalent types.
pub open spec fn equivalent_fields(a: Seq<(Seq<char>, TyModel)>, b: Seq<(Seq<char>, TyModel)>) -> bool {
    a.len() == b.len()
        && forall|i: int| 0 <= i < a.len() ==> (#[trigger] a[i]).0 == b[i].0
        && equivalent(a[i].1, b[i].1)
}

/// Whether two field lists may share one struct instance.
pub fn fields_equivalent(a: &Vec<(String, Ty)>, b: &Vec<(String, Ty)>) -> (r: bool)
    ensures
        r == equivalent_fields(string_tys_view(*a), string_tys_view(*b)),
{
    let ghost (x, y) = (string_tys_view(*a), string_tys_view(*b));
    if a.len() != b.len() {
        return false;
    }
    for i in 0..a.len()
        invariant
            x == string_tys_view(*a),
            y == string_tys_view(*b),
            a@.len() == b@.len(),
            forall|j: int| 0 <= j < i ==> (#[trigger] x[j]).0 == y[j].0 && equivalent(x[j].1, y[j].1),
    {
        if !(a[i].0 == b[i].0 && ty_equivalent(&a[i].1, &b[i].1)) {
            assert(!(x[i as int].0 == y[i as int].0 && equivalent(x[i as int].1, y[i as int].1)));
            return false;
        }
    }
    true
}

/// Structural type equality that ignores the origins of references and pointers
/// and the spelling of callable environments, names and conventions. Mutability
/// still has to agree.
pub open spec fn equal_modulo_origins(a: TyModel, b: TyModel) -> bool
    decreases a,
{
    match (a, b) {
        (
            TyModel::Ref(x),
            TyModel::Ref(y),
        ) => x.mutability == y.mutability && equal_modulo_origins(*x.referent, *y.referent),
        (
            TyModel::Pointer { element: x, .. },
            TyModel::Pointer { element: y, .. },
        ) => equal_modulo_origins(*x, *y),
        (TyModel::Struct(a_name, a_args), TyModel::Struct(b_name, b_args)) => a_name == b_name
            && args_equal_modulo_origins(a_args, b_args),
        (TyModel::Tuple(x), TyModel::Tuple(y)) => all_equal_modulo_origins(x, y),
        (TyModel::RuntimePack(x), TyModel::RuntimePack(y)) => all_equal_modulo_origins(x, y),
        (TyModel::Variant(x), TyModel::Variant(y)) => all_equal_modulo_origins(x, y),
        (TyModel::ComptimeList(x), TyModel::ComptimeList(y)) => equal_modulo_origins(*x, *y),
        (TyModel::VariadicPack(x), TyModel::VariadicPack(y)) => equal_modulo_origins(*x, *y),
        (
            TyModel::Func {
                params: a_params,
                ret: a_ret,
                required: a_required,
                variadic: a_variadic,
                kw_variadic: a_kw_variadic,
                positional_only: a_positional_only,
                keyword_only: a_keyword_only,
                raises: a_raises,
                error: a_error,
                ..
            },
            TyModel::Func {
                params: b_params,
                ret: b_ret,
                required: b_required,
                variadic: b_variadic,
                kw_variadic: b_kw_variadic,
                positional_only: b_positional_only,
                keyword_only: b_keyword_only,
                raises: b_raises,
                error: b_error,
                ..
            },
        ) => {
            &&& a_raises == b_raises
            &&& a_required == b_required
            &&& a_positional_only == b_positional_only
            &&& a_keyword_only == b_keyword_only
            &&& all_equal_modulo_origins(a_params, b_params)
            &&& equal_modulo_origins(*a_ret, *b_ret)
            &&& opt_equal_modulo_origins(a_variadic, b_variadic)
            &&& opt_equal_modulo_origins(a_kw_variadic, b_kw_variadic)
            &&& opt_equal_modulo_origins(a_error, b_error)
        },
        _ => a == b,
    }
}

/// Whether the two lists are equal modulo origins, element by element.
pub open spec fn all_equal_modulo_origins(a: Seq<TyModel>, b: Seq<TyModel>) -> bool
    decreases a,
{
    a.len() == b.len() && forall|i: int| 0 <= i < a.len() ==> equal_modulo_origins(#[trigger] a[i], b[i])
}

/// Whether both are absent, or present and equal modulo origins.
pub open spec fn opt_equal_modulo_origins(a: Option<Box<TyModel>>, b: Option<Box<TyModel>>) -> bool
    decreases a,
{
    match (a, b) {
        (Some(x), Some(y)) => equal_modulo_origins(*x, *y),
        (None, None) => true,
        _ => false,
    }
}

/// Whether two application arguments are equal modulo origins.
pub open spec fn arg_equal_modulo_origins(a: TyArgModel, b: TyArgModel) -> bool
    decreases a,
{
    match (a, b) {
        (TyArgModel::Ty(x), TyArgModel::Ty(y)) => equal_modulo_origins(x, y),
        (TyArgModel::Origin(_), TyArgModel::Origin(_)) => true,
        _ => a == b,
    }
}

/// Whether the two argument lists are equal modulo origins, element by element.
pub open spec fn args_equal_modulo_origins(a: Seq<TyArgModel>, b: Seq<TyArgModel>) -> bool
    decreases a,
{
    a.len() == b.len() && forall|i: int| 0 <= i < a.len() ==> arg_equal_modulo_origins(#[trigger] a[i], b[i])
}

fn tys_equal_modulo_origins(a: &Vec<Ty>, b: &Vec<Ty>) -> (r: bool)
    ensures
        r == all_equal_modulo_origins(tys_view(*a), tys_view(*b)),
    decreases a,
{
    let ghost (x, y) = (tys_view(*a), tys_view(*b));
    if a.len() != b.len() {
        return false;
    }
    for i in 0..a.len()
        invariant
            x == tys_view(*a),
            y == tys_view(*b),
            a@.len() == b@.len(),
            forall|j: int| 0 <= j < i ==> equal_modulo_origins(#[trigger] x[j], y[j]),
    {
        if !ty_equal_modulo_origins(&a[i], &b[i]) {
            assert(!equal_modulo_origins(x[i as int], y[i as int]));
            return false;
        }
    }
    true
}

fn opt_ty_equal_modulo_origins(a: &Option<Box<Ty>>, b: &Option<Box<Ty>>) -> (r: bool)
    ensures
        r == opt_equal_modulo_origins(opt_boxed_ty_view(*a), opt_boxed_ty_view(*b)),
    decreases a,
{
    match (a, b) {
        (Some(x), Some(y)) => ty_equal_modulo_origins(x, y),
        (None, None) => true,
        _ => false,
    }
}

fn ty_args_equal_modulo_origins(a: &Vec<TyArg>, b: &Vec<TyArg>) -> (r: bool)
    ensures
        r == args_equal_modulo_origins(ty_args_view(*a), ty_args_view(*b)),
    decreases a,
{
    let ghost (x, y) = (ty_args_view(*a), ty_args_view(*b));
    if a.len() != b.len() {
        return false;
    }
    for i in 0..a.len()
        invariant
            x == ty_args_view(*a),
            y == ty_args_view(*b),
            a@.len() == b@.len(),
            forall|j: int| 0 <= j < i ==> arg_equal_modulo_origins(#[trigger] x[j], y[j]),
    {
        let same: bool = match (&a[i], &b[i]) {
            (TyArg::Ty(s), TyArg::Ty(t)) => ty_equal_modulo_origins(s, t),
            (TyArg::Origin(_), TyArg::Origin(_)) => true,
            (s, t) => s.same(t),
        };
        if !same {
            assert(!arg_equal_modulo_origins(x[i as int], y[i as int]));
            return false;
        }
    }
    true
}

/// Structural type equality that ignores the origins of references and pointers.
pub fn ty_equal_modulo_origins(a: &Ty, b: &Ty) -> (r: bool)
    ensures
        r == equal_modulo_origins(a@, b@),
    decreases a,
{
    match (a, b) {
        (Ty::Ref(x), Ty::Ref(y)) => {
            assert(x@.mutability == x.mutability && *x@.referent == x.referent@);
            assert(y@.mutability == y.mutability && *y@.referent == y.referent@);
            x.mutability == y.mutability && ty_equal_modulo_origins(&x.referent, &y.referent)
        },
        (Ty::Pointer { element: x, .. }, Ty::Pointer { element: y, .. }) => ty_equal_modulo_origins(x, y),
        (Ty::Struct(a_name, a_args), Ty::Struct(b_name, b_args)) => *a_name == *b_name && ty_args_equal_modulo_origins(
            a_args,
            b_args,
        ),
        (Ty::Tuple(x), Ty::Tuple(y)) => tys_equal_modulo_origins(x, y),
        (Ty::RuntimePack(x), Ty::RuntimePack(y)) => tys_equal_modulo_origins(x, y),
        (Ty::Variant(x), Ty::Variant(y)) => tys_equal_modulo_origins(x, y),
        (Ty::ComptimeList(x), Ty::ComptimeList(y)) => ty_equal_modulo_origins(x, y),
        (Ty::VariadicPack(x), Ty::VariadicPack(y)) => ty_equal_modulo_origins(x, y),
        (
            Ty::Func {
                params: a_params,
                ret: a_ret,
                required: a_required,
                variadic: a_variadic,
                kw_variadic: a_kw_variadic,
                positional_only: a_positional_only,
                keyword_only: a_keyword_only,
                raises: a_raises,
                error: a_error,
                ..
            },
            Ty::Func {
                params: b_params,
                ret: b_ret,
                required: b_required,
                variadic: b_variadic,
                kw_variadic: b_kw_variadic,
                positional_only: b_positional_only,
                keyword_only: b_keyword_only,
                raises: b_raises,
                error: b_error,
                ..
            },
        ) => *a_raises == *b_raises && same_bools(a_required, b_required) && *a_positional_only == *b_positional_only
            && *a_keyword_only == *b_keyword_only && tys_equal_modulo_origins(a_params, b_params)
            && ty_equal_modulo_origins(a_ret, b_ret) && opt_ty_equal_modulo_origins(a_variadic, b_variadic)
            && opt_ty_equal_modulo_origins(a_kw_variadic, b_kw_variadic) && opt_ty_equal_modulo_origins(a_error, b_error),
        _ => a.same(b),
    }
}

/// The type with the environment of every callable in it replaced by the
/// unqualified one.
pub open spec fn erased(ty: TyModel) -> TyModel
    decreases ty,
{
    match ty {
        TyModel::Func {
            environment,
            params,
            names,
            ret,
            required,
            variadic,
            kw_variadic,
            positional_only,
            keyword_only,
            raises,
            error,
            conventions,
            ref_params,
            ref_return,
            transfers,
        } => TyModel::Func {
            environment: CallableEnvironmentModel::Default,
            params: all_erased(params),
            names,
            ret: Box::new(erased(*ret)),
            required,
            variadic: opt_erased(variadic),
            kw_variadic: opt_erased(kw_variadic),
            positional_only,
            keyword_only,
            raises,
            error: opt_erased(error),
            conventions,
            ref_params,
            ref_return,
            transfers,
        },
        TyModel::Struct(name, args) => TyModel::Struct(name, all_erased_args(args)),
        TyModel::Tuple(elements) => TyModel::Tuple(all_erased(elements)),
        TyModel::RuntimePack(elements) => TyModel::RuntimePack(all_erased(elements)),
        TyModel::Variant(elements) => TyModel::Variant(all_erased(elements)),
        TyModel::ComptimeList(element) => TyModel::ComptimeList(Box::new(erased(*element))),
        TyModel::VariadicPack(element) => TyModel::VariadicPack(Box::new(erased(*element))),
        TyModel::Pointer { element, origin } => TyModel::Pointer {
            element: Box::new(erased(*element)),
            origin,
        },
        TyModel::Ref(reference) => TyModel::Ref(
            RefTyModel { referent: Box::new(erased(*reference.referent)), ..reference },
        ),
        _ => ty,
    }
}

/// The types with their callable environments erased.
pub open spec fn all_erased(tys: Seq<TyModel>) -> Seq<TyModel>
    decreases tys,
{
    Seq::new(tys.len(), |i: int| if 0 <= i < tys.len() { erased(tys[i]) } else { arbitrary() })
}

/// The type, if any, with its callable environments erased.
pub open spec fn opt_erased(ty: Option<Box<TyModel>>) -> Option<Box<TyModel>>
    decreases ty,
{
    match ty {
        Some(t) => Some(Box::new(erased(*t))),
        None => None,
    }
}

/// The application argument with its callable environments erased.
pub open spec fn erased_arg(arg: TyArgModel) -> TyArgModel
    decreases arg,
{
    match arg {
        TyArgModel::Ty(ty) => TyArgModel::Ty(erased(ty)),
        _ => arg,
    }
}

/// The application arguments with their callable environments erased.
pub open spec fn all_erased_args(args: Seq<TyArgModel>) -> Seq<TyArgModel>
    decreases args,
{
    Seq::new(args.len(), |i: int| if 0 <= i < args.len() { erased_arg(args[i]) } else { arbitrary() })
}

fn erase_tys(tys: &Vec<Ty>) -> (r: Vec<Ty>)
    ensures
        tys_view(r) == all_erased(tys_view(*tys)),
    decreases tys,
{
    let ghost model = tys_view(*tys);
    let mut out: Vec<Ty> = Vec::new();
    for i in 0..tys.len()
        invariant
            model == tys_view(*tys),
            out@.len() == i,
            forall|j: int| 0 <= j < i ==> (#[trigger] out@[j])@ == erased(model[j]),
    {
        out.push(canonicalize_callable(&tys[i]));
    }
    assert(tys_view(out) =~= all_erased(model));
    out
}

fn erase_args(args: &Vec<TyArg>) -> (r: Vec<TyArg>)
    ensures
        ty_args_view(r) == all_erased_args(ty_args_view(*args)),
    decreases args,
{
    let ghost model = ty_args_view(*args);
    let mut out: Vec<TyArg> = Vec::new();
    for i in 0..args.len()
        invariant
            model == ty_args_view(*args),
            out@.len() == i,
            forall|j: int| 0 <= j < i ==> (#[trigger] out@[j])@ == erased_arg(model[j]),
    {
        let arg: TyArg = match &args[i] {
            TyArg::Ty(ty) => TyArg::Ty(canonicalize_callable(ty)),
            other => other.copy(),
        };
        out.push(arg);
    }
    assert(ty_args_view(out) =~= all_erased_args(model));
    out
}

fn erase_opt(ty: &Option<Box<Ty>>) -> (r: Option<Box<Ty>>)
    ensures
        opt_boxed_ty_view(r) == opt_erased(opt_boxed_ty_view(*ty)),
    decreases ty,
{
    match ty {
        Some(t) => Some(Box::new(canonicalize_callable(t))),
        None => None,
    }
}

/// The type with the environment of every callable in it erased. Environments
/// have no runtime representation, so instance identity must not split on them.
pub fn canonicalize_callable(ty: &Ty) -> (r: Ty)
    ensures
        r@ == erased(ty@),
    decreases ty,
{
    match ty {
        Ty::Func {
            environment: _,
            params,
            names,
            ret,
            required,
            variadic,
            kw_variadic,
            positional_only,
            keyword_only,
            raises,
            error,
            conventions,
            ref_params,
            ref_return,
            transfers,
        } => Ty::Func {
            environment: CallableEnvironment::Default,
            params: erase_tys(params),
            names: copy_strings(names),
            ret: Box::new(canonicalize_callable(ret)),
            required: copy_bools(required),
            variadic: erase_opt(variadic),
            kw_variadic: erase_opt(kw_variadic),
            positional_only: *positional_only,
            keyword_only: *keyword_only,
            raises: *raises,
            error: erase_opt(error),
            conventions: copy_opt_arg_conventions(conventions),
            ref_params: copy_opt_ref_sigs(ref_params),
            ref_return: copy_opt_boxed_ref_sig(ref_return),
            transfers: copy_usizes(transfers),
        },
        Ty::Struct(name, args) => Ty::Struct(name.clone(), erase_args(args)),
        Ty::Tuple(elements) => Ty::Tuple(erase_tys(elements)),
        Ty::RuntimePack(elements) => Ty::RuntimePack(erase_tys(elements)),
        Ty::Variant(elements) => Ty::Variant(erase_tys(elements)),
        Ty::ComptimeList(element) => Ty::ComptimeList(Box::new(canonicalize_callable(element))),
        Ty::VariadicPack(element) => Ty::VariadicPack(Box::new(canonicalize_callable(element))),
        Ty::Pointer { element, origin } => Ty::Pointer {
            element: Box::new(canonicalize_callable(element)),
            origin: origin.copy(),
        },
        Ty::Ref(reference) => {
            assert(*reference@.referent == reference.referent@);
            let erased_reference: RefTy = RefTy {
                referent: Box::new(canonicalize_callable(&reference.referent)),
                origin: reference.origin.copy(),
                mutability: reference.mutability,
            };
            assert(
                erased_reference@ == (RefTyModel { referent: Box::new(erased(reference.referent@)), ..reference@ })
            );
            Ty::Ref(erased_reference)
        },
        _ => ty.copy(),
    }
}

/// Erases the environment of every callable in the type.
pub fn erase_callable_environments(ty: &mut Ty)
    ensures
        final(ty)@ == erased(old(ty)@),
{
    *ty = canonicalize_callable(ty);
}

/// The referent behind any number of reference layers.
pub open spec fn peeled(ty: TyModel) -> TyModel
    decreases ty,
{
    match ty {
        TyModel::Ref(reference) => peeled(*reference.referent),
        _ => ty,
    }
}

/// The referent behind any number of reference layers.
pub fn peel_refs(ty: &Ty) -> (r: &Ty)
    ensures
        r@ == peeled(ty@),
    decreases ty,
{
    match ty {
        Ty::Ref(reference) => {
            assert(*reference@.referent == reference.referent@);
            peel_refs(&reference.referent)
        },
        _ => ty,
    }
}

/// Whether the type is that of a literal, which materializes into whatever
/// concrete storage it meets.
pub open spec fn literal_ty(ty: TyModel) -> bool {
    ty is IntLiteral || ty is FloatLiteral || ty is StringLiteral
}

/// Whether the type is that of a literal.
pub fn is_literal_ty(ty: &Ty) -> (r: bool)
    ensures
        r == literal_ty(ty@),
{
    match ty {
        Ty::IntLiteral | Ty::FloatLiteral | Ty::StringLiteral => true,
        _ => false,
    }
}

/// Bindings after a step of solving, and the error it stopped with, if any.
#[verifier::ext_equal]
pub struct Solved {
    pub bindings: BindingsModel,
    pub error: Option<Seq<char>>,
}

/// The step went through.
pub open spec fn solved(bindings: BindingsModel) -> Solved {
    Solved { bindings, error: None }
}

/// The step stopped and left the bindings as they are.
pub open spec fn stuck(bindings: BindingsModel, error: Seq<char>) -> Solved {
    Solved { bindings, error: Some(error) }
}

/// The model of an executable step.
pub open spec fn solved_view(bindings: Bindings, r: Result<(), String>) -> Solved {
    Solved {
        bindings: bindings@,
        error: match r {
            Ok(()) => None,
            Err(e) => Some(e@),
        },
    }
}

/// The text of two solutions that disagree.
#[verifier::opaque]
pub open spec fn conflict_text(
    name: Seq<char>,
    old_text: Seq<char>,
    old_debug: Seq<char>,
    new_text: Seq<char>,
    new_debug: Seq<char>,
) -> Seq<char> {
    "conflicting solutions for `"@ + name + "`: `"@ + old_text + "` ("@ + old_debug + ") and `"@ + (new_text + "` ("@ + new_debug
        + ")"@)
}

fn conflict(name: &str, old_text: &str, old_debug: &str, new_text: &str, new_debug: &str) -> (r: String)
    ensures
        r@ == conflict_text(name@, old_text@, old_debug@, new_text@, new_debug@),
{
    proof {
        reveal(conflict_text);
    }
    let head: String = cat7(
        "conflicting solutions for `",
        name,
        "`: `",
        old_text,
        "` (",
        old_debug,
        ") and `",
    );
    cat2(&head, &cat4(new_text, "` (", new_debug, ")"))
}

/// Binding a type parameter. A literal solution gives way to a concrete one in
/// either order; origins do not make solutions differ, and the first spelling
/// stays.
#[verifier::opaque]
pub open spec fn bind_ty(name: Seq<char>, ty: TyModel, b: BindingsModel) -> Solved {
    let canonical = erased(ty);
    if symbolic(ty) {
        stuck(b, "solution for `"@ + name + "` is not concrete: `"@ + ty_text(ty) + "`"@)
    } else if !b.types.dom().contains(name) {
        solved(BindingsModel { types: b.types.insert(name, canonical), ..b })
    } else {
        let known = b.types[name];
        if literal_ty(canonical) && !literal_ty(known) {
            solved(b)
        } else if literal_ty(known) && !literal_ty(canonical) {
            solved(BindingsModel { types: b.types.insert(name, canonical), ..b })
        } else if known != canonical && !equal_modulo_origins(known, canonical) {
            stuck(
                b,
                conflict_text(name, ty_text(known), ty_debug(known), ty_text(canonical), ty_debug(canonical)),
            )
        } else {
            solved(b)
        }
    }
}

/// Binds a type parameter to a concrete type.
pub fn bind_type(name: &str, ty: &Ty, bindings: &mut Bindings) -> (r: Result<(), String>)
    ensures
        solved_view(*final(bindings), r) == bind_ty(name@, ty@, old(bindings)@),
{
    proof {
        reveal(bind_ty);
    }
    if is_symbolic(ty) {
        return Err(cat5("solution for `", name, "` is not concrete: `", &ty.text(), "`"));
    }
    let canonical: Ty = canonicalize_callable(ty);
    let replace: bool = match bindings.ty(name) {
        None => true,
        Some(known) => {
            if is_literal_ty(&canonical) && !is_literal_ty(known) {
                false
            } else if is_literal_ty(known) && !is_literal_ty(&canonical) {
                true
            } else if !known.same(&canonical) && !ty_equal_modulo_origins(known, &canonical) {
                return Err(
                    conflict(name, &known.text(), &debug_ty(known), &canonical.text(), &debug_ty(&canonical))
                );
            } else {
                false
            }
        },
    };
    if replace {
        bindings.set_type(name.to_owned(), canonical);
    }
    Ok(())
}

/// Binding a value parameter: a second solution has to equal the first.
#[verifier::opaque]
pub open spec fn bind_ct(name: Seq<char>, value: CtValueModel, b: BindingsModel) -> Solved {
    if value is Param {
        stuck(b, "solution for `"@ + name + "` is not constant"@)
    } else if !b.values.dom().contains(name) {
        solved(BindingsModel { values: b.values.insert(name, value), ..b })
    } else if b.values[name] != value {
        stuck(
            b,
            conflict_text(
                name,
                ct_value_text(b.values[name]),
                ct_value_debug(b.values[name]),
                ct_value_text(value),
                ct_value_debug(value),
            ),
        )
    } else {
        solved(b)
    }
}

/// Binds a value parameter to a constant.
pub fn bind_value(name: &str, value: &CtValue, bindings: &mut Bindings) -> (r: Result<(), String>)
    ensures
        solved_view(*final(bindings), r) == bind_ct(name@, value@, old(bindings)@),
{
    proof {
        reveal(bind_ct);
    }
    if let CtValue::Param(_) = value {
        return Err(cat3("solution for `", name, "` is not constant"));
    }
    let known: bool = match bindings.value(name) {
        Some(known) => {
            if !known.same(value) {
                return Err(
                    conflict(
                        name,
                        &known.text(),
                        &debug_ct_value(known),
                        &value.text(),
                        &debug_ct_value(value),
                    )
                );
            }
            true
        },
        None => false,
    };
    if !known {
        bindings.set_value(name.to_owned(), value.copy());
    }
    Ok(())
}

/// The text of a pattern that does not fit.
#[verifier::opaque]
pub open spec fn mismatch_text(pattern: TyModel, actual: TyModel) -> Seq<char> {
    "expected `"@ + ty_text(pattern) + "`, found `"@ + ty_text(actual) + "`"@
}

fn mismatch(pattern: &Ty, actual: &Ty) -> (r: String)
    ensures
        r@ == mismatch_text(pattern@, actual@),
{
    proof {
        reveal(mismatch_text);
    }
    cat5("expected `", &pattern.text(), "`, found `", &actual.text(), "`")
}

/// Solving `pattern` against `actual`: the parameters in the pattern are bound,
/// everything else has to fit. A literal fits every pattern. Callables fit on
/// their runtime structure; origins never take part.
pub open spec fn unify_ty(pattern: TyModel, actual: TyModel, b: BindingsModel) -> Solved
    decreases pattern,
{
    let misfit = stuck(b, mismatch_text(pattern, actual));
    match pattern {
        TyModel::Param { name, .. } => bind_ty(name, actual, b),
        TyModel::Assoc { .. } => if !b.associated.dom().contains(ty_text(pattern)) {
            solved(BindingsModel { associated: b.associated.insert(ty_text(pattern), actual), ..b })
        } else if b.associated[ty_text(pattern)] != actual {
            stuck(
                b,
                "conflicting solutions for associated type `"@ + ty_text(pattern) + "`: `"@ + ty_text(
                    b.associated[ty_text(pattern)]
                )
                    + "` and `"@ + ty_text(actual) + "`"@,
            )
        } else {
            solved(b)
        },
        _ => if literal_ty(actual) && pattern != actual {
            solved(b)
        } else {
            match (pattern, actual) {
                (
                    TyModel::Struct(p_name, p),
                    TyModel::Struct(a_name, a),
                ) => if template_of(p_name) != template_of(a_name) {
                    misfit
                } else if p.len() == 0 {
                    solved(b)
                } else if p.len() == a.len() {
                    unify_ty_args(p, a, b)
                } else {
                    misfit
                },
                (TyModel::Struct(..), _) => misfit,
                (TyModel::Tuple(p), _) => if aggregate_of(actual) is Some && p.len() == aggregate_of(actual)->Some_0.len() {
                    unify_tys(p, aggregate_of(actual)->Some_0, b)
                } else {
                    misfit
                },
                (TyModel::RuntimePack(p), _) => if aggregate_of(actual) is Some && p.len() == aggregate_of(
                    actual,
                )->Some_0.len() {
                    unify_tys(p, aggregate_of(actual)->Some_0, b)
                } else {
                    misfit
                },
                (TyModel::Variant(p), _) => if aggregate_of(actual) is Some && p.len() == aggregate_of(actual)->Some_0.len() {
                    unify_tys(p, aggregate_of(actual)->Some_0, b)
                } else {
                    misfit
                },
                (TyModel::ComptimeList(p), TyModel::ComptimeList(a)) => unify_ty(*p, *a, b),
                (TyModel::ComptimeList(p), TyModel::VariadicPack(a)) => unify_ty(*p, *a, b),
                (TyModel::VariadicPack(p), TyModel::ComptimeList(a)) => unify_ty(*p, *a, b),
                (TyModel::VariadicPack(p), TyModel::VariadicPack(a)) => unify_ty(*p, *a, b),
                (TyModel::ComptimeList(_), _) => misfit,
                (TyModel::VariadicPack(_), _) => misfit,
                (
                    TyModel::Pointer { element: p, .. },
                    TyModel::Pointer { element: a, .. },
                ) => unify_ty(*p, *a, b),
                (TyModel::Pointer { .. }, _) => misfit,
                (TyModel::Ref(p), TyModel::Ref(a)) => if p.mutability == a.mutability {
                    unify_ty(*p.referent, *a.referent, b)
                } else {
                    misfit
                },
                (TyModel::Ref(_), _) => misfit,
                (
                    TyModel::Func {
                        params: p_params,
                        ret: p_ret,
                        required: p_required,
                        variadic: p_variadic,
                        kw_variadic: p_kw_variadic,
                        positional_only: p_positional_only,
                        keyword_only: p_keyword_only,
                        raises: p_raises,
                        error: p_error,
                        ..
                    },
                    TyModel::Func {
                        params: a_params,
                        ret: a_ret,
                        required: a_required,
                        variadic: a_variadic,
                        kw_variadic: a_kw_variadic,
                        positional_only: a_positional_only,
                        keyword_only: a_keyword_only,
                        raises: a_raises,
                        error: a_error,
                        ..
                    },
                ) => if p_params.len() == a_params.len() && p_required == a_required && p_positional_only == a_positional_only
                    && p_keyword_only == a_keyword_only && p_raises == a_raises {
                    let s0 = unify_tys(p_params, a_params, b);
                    let s1 = if s0.error is Some { s0 } else { unify_ty(*p_ret, *a_ret, s0.bindings) };
                    let text = mismatch_text(pattern, actual);
                    let s2 = if s1.error is Some { s1 } else { unify_opt(p_variadic, a_variadic, s1.bindings, text) };
                    let s3 = if s2.error is Some { s2 } else { unify_opt(p_kw_variadic, a_kw_variadic, s2.bindings, text) };
                    if s3.error is Some { s3 } else { unify_opt(p_error, a_error, s3.bindings, text) }
                } else {
                    misfit
                },
                (TyModel::Func { .. }, _) => misfit,
                _ => if pattern == actual { solved(b) } else { misfit },
            }
        },
    }
}

/// The elements of a tuple, a pack or a variant.
pub open spec fn aggregate_of(ty: TyModel) -> Option<Seq<TyModel>> {
    match ty {
        TyModel::Tuple(v) => Some(v),
        TyModel::RuntimePack(v) => Some(v),
        TyModel::Variant(v) => Some(v),
        _ => None,
    }
}

/// Solving two lists of one length element by element, up to the first error.
pub open spec fn unify_tys(patterns: Seq<TyModel>, actuals: Seq<TyModel>, b: BindingsModel) -> Solved
    decreases patterns,
{
    if patterns.len() == 0 {
        solved(b)
    } else {
        let s = unify_tys(patterns.drop_last(), actuals.drop_last(), b);
        if s.error is Some { s } else { unify_ty(patterns.last(), actuals.last(), s.bindings) }
    }
}

/// Solving two argument lists of one length element by element, up to the first
/// error.
pub open spec fn unify_ty_args(
    patterns: Seq<TyArgModel>,
    actuals: Seq<TyArgModel>,
    b: BindingsModel,
) -> Solved
    decreases patterns,
{
    if patterns.len() == 0 {
        solved(b)
    } else {
        let s = unify_ty_args(patterns.drop_last(), actuals.drop_last(), b);
        if s.error is Some { s } else { unify_ty_arg(patterns.last(), actuals.last(), s.bindings) }
    }
}

/// Solving one application argument: origins always fit.
pub open spec fn unify_ty_arg(pattern: TyArgModel, actual: TyArgModel, b: BindingsModel) -> Solved
    decreases pattern,
{
    match (pattern, actual) {
        (TyArgModel::Ty(p), TyArgModel::Ty(a)) => unify_ty(p, a, b),
        (TyArgModel::Val(CtValueModel::Param(name)), TyArgModel::Val(value)) => bind_ct(name, value, b),
        (TyArgModel::Val(p), TyArgModel::Val(a)) => if p == a {
            solved(b)
        } else {
            stuck(b, "generic application arguments disagree"@)
        },
        (TyArgModel::Origin(_), TyArgModel::Origin(_)) => solved(b),
        _ => stuck(b, "generic application arguments disagree"@),
    }
}

/// Solving two optional types: both have to be there or both absent.
pub open spec fn unify_opt(
    pattern: Option<Box<TyModel>>,
    actual: Option<Box<TyModel>>,
    b: BindingsModel,
    misfit: Seq<char>,
) -> Solved
    decreases pattern,
{
    match (pattern, actual) {
        (Some(p), Some(a)) => unify_ty(*p, *a, b),
        (None, None) => solved(b),
        _ => stuck(b, misfit),
    }
}

proof fn lemma_unify_tys_error(patterns: Seq<TyModel>, actuals: Seq<TyModel>, b: BindingsModel, n: int)
    requires
        patterns.len() == actuals.len(),
        0 <= n <= patterns.len(),
        unify_tys(patterns.take(n), actuals.take(n), b).error is Some,
    ensures
        unify_tys(patterns, actuals, b) == unify_tys(patterns.take(n), actuals.take(n), b),
    decreases patterns.len(),
{
    if n == patterns.len() {
        assert(patterns.take(n) =~= patterns);
        assert(actuals.take(n) =~= actuals);
    } else {
        assert(patterns.drop_last().take(n) =~= patterns.take(n));
        assert(actuals.drop_last().take(n) =~= actuals.take(n));
        lemma_unify_tys_error(patterns.drop_last(), actuals.drop_last(), b, n);
    }
}

proof fn lemma_unify_ty_args_error(
    patterns: Seq<TyArgModel>,
    actuals: Seq<TyArgModel>,
    b: BindingsModel,
    n: int,
)
    requires
        patterns.len() == actuals.len(),
        0 <= n <= patterns.len(),
        unify_ty_args(patterns.take(n), actuals.take(n), b).error is Some,
    ensures
        unify_ty_args(patterns, actuals, b) == unify_ty_args(patterns.take(n), actuals.take(n), b),
    decreases patterns.len(),
{
    if n == patterns.len() {
        assert(patterns.take(n) =~= patterns);
        assert(actuals.take(n) =~= actuals);
    } else {
        assert(patterns.drop_last().take(n) =~= patterns.take(n));
        assert(actuals.drop_last().take(n) =~= actuals.take(n));
        lemma_unify_ty_args_error(patterns.drop_last(), actuals.drop_last(), b, n);
    }
}

fn unify_list(patterns: &Vec<Ty>, actuals: &Vec<Ty>, bindings: &mut Bindings) -> (r: Result<(), String>)
    requires
        patterns@.len() == actuals@.len(),
    ensures
        solved_view(*final(bindings), r) == unify_tys(
            tys_view(*patterns),
            tys_view(*actuals),
            old(bindings)@,
        ),
    decreases patterns, 0int,
{
    let ghost (p, a) = (tys_view(*patterns), tys_view(*actuals));
    let ghost start = bindings@;
    for i in 0..patterns.len()
        invariant
            p == tys_view(*patterns),
            a == tys_view(*actuals),
            patterns@.len() == actuals@.len(),
            start == old(bindings)@,
            unify_tys(p.take(i as int), a.take(i as int), start) == solved(bindings@),
    {
        let ghost before = bindings@;
        let step: Result<(), String> = unify(&patterns[i], &actuals[i], bindings);
        proof {
            assert(p.take(i + 1).drop_last() =~= p.take(i as int));
            assert(a.take(i + 1).drop_last() =~= a.take(i as int));
            assert(unify_tys(p.take(i + 1), a.take(i + 1), start) == solved_view(*bindings, step));
        }
        if step.is_err() {
            proof {
                lemma_unify_tys_error(p, a, start, i + 1);
            }
            return step;
        }
    }
    proof {
        assert(p.take(p.len() as int) =~= p);
        assert(a.take(p.len() as int) =~= a);
    }
    Ok(())
}

fn unify_arg_list(
    patterns: &Vec<TyArg>,
    actuals: &Vec<TyArg>,
    bindings: &mut Bindings,
) -> (r: Result<(), String>)
    requires
        patterns@.len() == actuals@.len(),
    ensures
        solved_view(*final(bindings), r) == unify_ty_args(
            ty_args_view(*patterns),
            ty_args_view(*actuals),
            old(bindings)@,
        ),
    decreases patterns, 0int,
{
    let ghost (p, a) = (ty_args_view(*patterns), ty_args_view(*actuals));
    let ghost start = bindings@;
    for i in 0..patterns.len()
        invariant
            p == ty_args_view(*patterns),
            a == ty_args_view(*actuals),
            patterns@.len() == actuals@.len(),
            start == old(bindings)@,
            unify_ty_args(p.take(i as int), a.take(i as int), start) == solved(bindings@),
    {
        let step: Result<(), String> = unify_arg(&patterns[i], &actuals[i], bindings);
        proof {
            assert(p.take(i + 1).drop_last() =~= p.take(i as int));
            assert(a.take(i + 1).drop_last() =~= a.take(i as int));
            assert(unify_ty_args(p.take(i + 1), a.take(i + 1), start) == solved_view(*bindings, step));
        }
        if step.is_err() {
            proof {
                lemma_unify_ty_args_error(p, a, start, i + 1);
            }
            return step;
        }
    }
    proof {
        assert(p.take(p.len() as int) =~= p);
        assert(a.take(p.len() as int) =~= a);
    }
    Ok(())
}

fn unify_option(
    pattern: &Option<Box<Ty>>,
    actual: &Option<Box<Ty>>,
    bindings: &mut Bindings,
    misfit: &str,
) -> (r: Result<(), String>)
    ensures
        solved_view(*final(bindings), r) == unify_opt(
            opt_boxed_ty_view(*pattern),
            opt_boxed_ty_view(*actual),
            old(bindings)@,
            misfit@,
        ),
    decreases pattern, 0int,
{
    match (pattern, actual) {
        (Some(p), Some(a)) => unify(p, a, bindings),
        (None, None) => Ok(()),
        _ => Err(misfit.to_owned()),
    }
}

/// Solves one application argument.
pub fn unify_arg(pattern: &TyArg, actual: &TyArg, bindings: &mut Bindings) -> (r: Result<(), String>)
    ensures
        solved_view(*final(bindings), r) == unify_ty_arg(pattern@, actual@, old(bindings)@),
    decreases pattern, 0int,
{
    match (pattern, actual) {
        (TyArg::Ty(p), TyArg::Ty(a)) => unify(p, a, bindings),
        (TyArg::Val(p), TyArg::Val(a)) => {
            if let CtValue::Param(name) = p {
                bind_value(name, a, bindings)
            } else if p.same(a) {
                Ok(())
            } else {
                Err("generic application arguments disagree".to_owned())
            }
        },
        (TyArg::Origin(_), TyArg::Origin(_)) => Ok(()),
        _ => Err("generic application arguments disagree".to_owned()),
    }
}

fn aggregate(ty: &Ty) -> (r: Option<&Vec<Ty>>)
    ensures
        match r {
            Some(v) => aggregate_of(ty@) == Some(tys_view(*v)),
            None => aggregate_of(ty@) is None,
        },
{
    match ty {
        Ty::Tuple(v) => Some(v),
        Ty::RuntimePack(v) => Some(v),
        Ty::Variant(v) => Some(v),
        _ => None,
    }
}

fn unify_aggregate(pattern: &Ty, p: &Vec<Ty>, actual: &Ty, bindings: &mut Bindings) -> (r: Result<(), String>)
    ensures
        solved_view(*final(bindings), r) == (if aggregate_of(actual@) is Some && p@.len() == aggregate_of(
            actual@,
        )->Some_0.len() {
            unify_tys(tys_view(*p), aggregate_of(actual@)->Some_0, old(bindings)@)
        } else {
            stuck(old(bindings)@, mismatch_text(pattern@, actual@))
        }),
    decreases p, 1int,
{
    if let Some(a) = aggregate(actual) {
        assert(tys_view(*a).len() == a@.len());
        if p.len() == a.len() {
            return unify_list(p, a, bindings);
        }
    }
    Err(mismatch(pattern, actual))
}

/// Solves `pattern` against the concrete `actual`.
pub fn unify(pattern: &Ty, actual: &Ty, bindings: &mut Bindings) -> (r: Result<(), String>)
    ensures
        solved_view(*final(bindings), r) == unify_ty(pattern@, actual@, old(bindings)@),
    decreases pattern, 0int,
{
    match pattern {
        Ty::Param { name, .. } => return bind_type(name, actual, bindings),
        Ty::Assoc { .. } => {
            let known: bool = match bindings.associated_ty(&pattern.text()) {
                Some(known) => {
                    if !known.same(actual) {
                        return Err(
                            cat7(
                                "conflicting solutions for associated type `",
                                &pattern.text(),
                                "`: `",
                                &known.text(),
                                "` and `",
                                &actual.text(),
                                "`",
                            ),
                        );
                    }
                    true
                },
                None => false,
            };
            if !known {
                bindings.set_associated(pattern.text(), actual.copy());
            }
            return Ok(());
        },
        _ => {},
    }
    if is_literal_ty(actual) && !pattern.same(actual) {
        return Ok(());
    }
    match (pattern, actual) {
        (Ty::Struct(p_name, p), Ty::Struct(a_name, a)) => {
            assert(ty_args_view(*p).len() == p@.len());
            assert(ty_args_view(*a).len() == a@.len());
            if !str_eq(nominal_template(p_name), nominal_template(a_name)) {
                Err(mismatch(pattern, actual))
            } else if p.len() == 0 {
                Ok(())
            } else if p.len() == a.len() {
                unify_arg_list(p, a, bindings)
            } else {
                Err(mismatch(pattern, actual))
            }
        },
        (Ty::Struct(..), _) => Err(mismatch(pattern, actual)),
        (Ty::Tuple(p), _) => {
            assert(tys_view(*p).len() == p@.len());
            unify_aggregate(pattern, p, actual, bindings)
        },
        (Ty::RuntimePack(p), _) => {
            assert(tys_view(*p).len() == p@.len());
            unify_aggregate(pattern, p, actual, bindings)
        },
        (Ty::Variant(p), _) => {
            assert(tys_view(*p).len() == p@.len());
            unify_aggregate(pattern, p, actual, bindings)
        },
        (Ty::ComptimeList(p), Ty::ComptimeList(a)) => unify(p, a, bindings),
        (Ty::ComptimeList(p), Ty::VariadicPack(a)) => unify(p, a, bindings),
        (Ty::VariadicPack(p), Ty::ComptimeList(a)) => unify(p, a, bindings),
        (Ty::VariadicPack(p), Ty::VariadicPack(a)) => unify(p, a, bindings),
        (Ty::ComptimeList(_), _) => Err(mismatch(pattern, actual)),
        (Ty::VariadicPack(_), _) => Err(mismatch(pattern, actual)),
        (Ty::Pointer { element: p, .. }, Ty::Pointer { element: a, .. }) => unify(p, a, bindings),
        (Ty::Pointer { .. }, _) => Err(mismatch(pattern, actual)),
        (Ty::Ref(p), Ty::Ref(a)) => {
            assert(p@.mutability == p.mutability && *p@.referent == p.referent@);
            assert(a@.mutability == a.mutability && *a@.referent == a.referent@);
            if p.mutability == a.mutability {
                unify(&p.referent, &a.referent, bindings)
            } else {
                Err(mismatch(pattern, actual))
            }
        },
        (Ty::Ref(_), _) => Err(mismatch(pattern, actual)),
        (
            Ty::Func {
                params: p_params,
                ret: p_ret,
                required: p_required,
                variadic: p_variadic,
                kw_variadic: p_kw_variadic,
                positional_only: p_positional_only,
                keyword_only: p_keyword_only,
                raises: p_raises,
                error: p_error,
                ..
            },
            Ty::Func {
                params: a_params,
                ret: a_ret,
                required: a_required,
                variadic: a_variadic,
                kw_variadic: a_kw_variadic,
                positional_only: a_positional_only,
                keyword_only: a_keyword_only,
                raises: a_raises,
                error: a_error,
                ..
            },
        ) => {
            assert(tys_view(*p_params).len() == p_params@.len());
            assert(tys_view(*a_params).len() == a_params@.len());
            if !(p_params.len() == a_params.len() && same_bools(p_required, a_required) && *p_positional_only
                == *a_positional_only && *p_keyword_only == *a_keyword_only && *p_raises == *a_raises) {
                return Err(mismatch(pattern, actual));
            }
            let misfit: String = mismatch(pattern, actual);
            if let Err(e) = unify_list(p_params, a_params, bindings) {
                return Err(e);
            }
            if let Err(e) = unify(p_ret, a_ret, bindings) {
                return Err(e);
            }
            if let Err(e) = unify_option(p_variadic, a_variadic, bindings, &misfit) {
                return Err(e);
            }
            if let Err(e) = unify_option(p_kw_variadic, a_kw_variadic, bindings, &misfit) {
                return Err(e);
            }
            unify_option(p_error, a_error, bindings, &misfit)
        },
        (Ty::Func { .. }, _) => Err(mismatch(pattern, actual)),
        _ => if pattern.same(actual) { Ok(()) } else { Err(mismatch(pattern, actual)) },
    }
}

/// Solving a declared result against a checked result type, with the reference
/// layers of both peeled. Where the parameter already stands for a reference to
/// the peeled result, that solution stays.
pub open spec fn unify_result_ty(pattern: TyModel, actual: TyModel, b: BindingsModel) -> Solved {
    let p = peeled(pattern);
    let a = peeled(actual);
    match p {
        TyModel::Param { name, .. } => if b.types.dom().contains(name) && b.types[name] is Ref && equal_modulo_origins(
            *b.types[name]->Ref_0.referent,
            a,
        ) {
            solved(b)
        } else {
            unify_ty(p, a, b)
        },
        _ => unify_ty(p, a, b),
    }
}

/// Solves a declared result against a checked result type.
pub fn unify_result(pattern: &Ty, actual: &Ty, bindings: &mut Bindings) -> (r: Result<(), String>)
    ensures
        solved_view(*final(bindings), r) == unify_result_ty(pattern@, actual@, old(bindings)@),
{
    let p: &Ty = peel_refs(pattern);
    let a: &Ty = peel_refs(actual);
    if let Ty::Param { name, .. } = p {
        if let Some(known) = bindings.ty(name) {
            if let Ty::Ref(reference) = known {
                assert(*reference@.referent == reference.referent@);
                if ty_equal_modulo_origins(&reference.referent, a) {
                    return Ok(());
                }
            }
        }
    }
    unify(p, a, bindings)
}

/// Binding declared parameters to application arguments in order, up to the
/// first error. Surplus declarations or arguments do not take part.
pub open spec fn bind_args(decls: Seq<ParamDeclModel>, args: Seq<TyArgModel>, b: BindingsModel) -> Solved
    decreases decls.len(),
{
    let n = if decls.len() < args.len() { decls.len() } else { args.len() };
    bind_first_args(decls, args, n as nat, b)
}

/// Binding the first `n` declared parameters.
pub open spec fn bind_first_args(
    decls: Seq<ParamDeclModel>,
    args: Seq<TyArgModel>,
    n: nat,
    b: BindingsModel,
) -> Solved
    decreases n,
{
    if n == 0 {
        solved(b)
    } else {
        let s = bind_first_args(decls, args, (n - 1) as nat, b);
        if s.error is Some { s } else { bind_decl(decls[n - 1], args[n - 1], s.bindings) }
    }
}

/// Binding one declared parameter: a type to a type, a value to a value; origins
/// bind nothing.
pub open spec fn bind_decl(decl: ParamDeclModel, arg: TyArgModel, b: BindingsModel) -> Solved {
    match (decl, arg) {
        (ParamDeclModel::Type { name, .. }, TyArgModel::Ty(ty)) => bind_ty(name, ty, b),
        (ParamDeclModel::Value { name, .. }, TyArgModel::Val(value)) => bind_ct(name, value, b),
        (_, TyArgModel::Origin(_)) => solved(b),
        _ => stuck(b, "argument for `"@ + decl_name(decl) + "` has the wrong parameter kind"@),
    }
}

proof fn lemma_bind_first_args_error(
    decls: Seq<ParamDeclModel>,
    args: Seq<TyArgModel>,
    n: nat,
    m: nat,
    b: BindingsModel,
)
    requires
        n <= m,
        bind_first_args(decls, args, n, b).error is Some,
    ensures
        bind_first_args(decls, args, m, b) == bind_first_args(decls, args, n, b),
    decreases m,
{
    if n < m {
        lemma_bind_first_args_error(decls, args, n, (m - 1) as nat, b);
    }
}

/// Binds declared parameters to application arguments in order.
pub fn bind_ty_args(
    decls: &Vec<ParamDecl>,
    args: &Vec<TyArg>,
    bindings: &mut Bindings,
) -> (r: Result<(), String>)
    ensures
        solved_view(*final(bindings), r) == bind_args(
            param_decls_view(*decls),
            ty_args_view(*args),
            old(bindings)@,
        ),
{
    let ghost (d, a) = (param_decls_view(*decls), ty_args_view(*args));
    let ghost start = bindings@;
    let n: usize = if decls.len() < args.len() { decls.len() } else { args.len() };
    for i in 0..n
        invariant
            d == param_decls_view(*decls),
            a == ty_args_view(*args),
            n <= decls@.len(),
            n <= args@.len(),
            n == if decls@.len() < args@.len() { decls@.len() } else { args@.len() },
            start == old(bindings)@,
            bind_first_args(d, a, i as nat, start) == solved(bindings@),
    {
        let step: Result<(), String> = match (&decls[i], &args[i]) {
            (ParamDecl::Type { name, .. }, TyArg::Ty(ty)) => bind_type(name, ty, bindings),
            (ParamDecl::Value { name, .. }, TyArg::Val(value)) => bind_value(name, value, bindings),
            (_, TyArg::Origin(_)) => Ok(()),
            (decl, _) => Err(cat3("argument for `", decl.name(), "` has the wrong parameter kind")),
        };
        assert(bind_first_args(d, a, (i + 1) as nat, start) == solved_view(*bindings, step));
        if step.is_err() {
            proof {
                lemma_bind_first_args_error(d, a, (i + 1) as nat, n as nat, start);
            }
            return step;
        }
    }
    Ok(())
}

/// What makes a relation of types an equivalence, on three types.
pub open spec fn equivalence_at(ab: bool, ba: bool, bc: bool, ac: bool, aa: bool) -> bool {
    aa && ab == ba && (ab && bc ==> ac)
}

/// Equality modulo origins is an equivalence.
pub proof fn law_equality_modulo_origins(a: TyModel, b: TyModel, c: TyModel)
    ensures
        equal_modulo_origins(a, a),
        equal_modulo_origins(a, b) == equal_modulo_origins(b, a),
        equal_modulo_origins(a, b) && equal_modulo_origins(b, c) ==> equal_modulo_origins(a, c),
    decreases a,
{
    match a {
        TyModel::Ref(x) => {
            let y = if let TyModel::Ref(y) = b { *y.referent } else { b };
            let z = if let TyModel::Ref(z) = c { *z.referent } else { c };
            law_equality_modulo_origins(*x.referent, y, z);
        },
        TyModel::Pointer { element, .. } => {
            let y = if let TyModel::Pointer { element, .. } = b { *element } else { b };
            let z = if let TyModel::Pointer { element, .. } = c { *element } else { c };
            law_equality_modulo_origins(*element, y, z);
        },
        TyModel::ComptimeList(x) => {
            let y = if let TyModel::ComptimeList(y) = b { *y } else { b };
            let z = if let TyModel::ComptimeList(z) = c { *z } else { c };
            law_equality_modulo_origins(*x, y, z);
        },
        TyModel::VariadicPack(x) => {
            let y = if let TyModel::VariadicPack(y) = b { *y } else { b };
            let z = if let TyModel::VariadicPack(z) = c { *z } else { c };
            law_equality_modulo_origins(*x, y, z);
        },
        TyModel::Tuple(x) => {
            let y = if let TyModel::Tuple(y) = b { y } else { x };
            let z = if let TyModel::Tuple(z) = c { z } else { x };
            lemma_lists_modulo_origins(x, y, z);
        },
        TyModel::RuntimePack(x) => {
            let y = if let TyModel::RuntimePack(y) = b { y } else { x };
            let z = if let TyModel::RuntimePack(z) = c { z } else { x };
            lemma_lists_modulo_origins(x, y, z);
        },
        TyModel::Variant(x) => {
            let y = if let TyModel::Variant(y) = b { y } else { x };
            let z = if let TyModel::Variant(z) = c { z } else { x };
            lemma_lists_modulo_origins(x, y, z);
        },
        TyModel::Struct(_, x) => {
            let y = if let TyModel::Struct(_, y) = b { y } else { x };
            let z = if let TyModel::Struct(_, z) = c { z } else { x };
            lemma_args_modulo_origins(x, y, z);
        },
        TyModel::Func { params, ret, variadic, kw_variadic, error, .. } => {
            let y = if b is Func { b } else { a };
            let z = if c is Func { c } else { a };
            lemma_lists_modulo_origins(params, y->Func_params, z->Func_params);
            law_equality_modulo_origins(*ret, *y->Func_ret, *z->Func_ret);
            lemma_opt_modulo_origins(variadic, y->Func_variadic, z->Func_variadic);
            lemma_opt_modulo_origins(kw_variadic, y->Func_kw_variadic, z->Func_kw_variadic);
            lemma_opt_modulo_origins(error, y->Func_error, z->Func_error);
        },
        _ => {},
    }
}

proof fn lemma_opt_modulo_origins(a: Option<Box<TyModel>>, b: Option<Box<TyModel>>, c: Option<Box<TyModel>>)
    ensures
        opt_equal_modulo_origins(a, a),
        opt_equal_modulo_origins(a, b) == opt_equal_modulo_origins(b, a),
        opt_equal_modulo_origins(a, b) && opt_equal_modulo_origins(b, c) ==> opt_equal_modulo_origins(a, c),
    decreases a,
{
    if let Some(x) = a {
        let y = if let Some(y) = b { *y } else { *x };
        let z = if let Some(z) = c { *z } else { *x };
        law_equality_modulo_origins(*x, y, z);
    }
}

proof fn lemma_lists_modulo_origins(a: Seq<TyModel>, b: Seq<TyModel>, c: Seq<TyModel>)
    ensures
        all_equal_modulo_origins(a, a),
        all_equal_modulo_origins(a, b) == all_equal_modulo_origins(b, a),
        all_equal_modulo_origins(a, b) && all_equal_modulo_origins(b, c) ==> all_equal_modulo_origins(a, c),
    decreases a,
{
    assert forall|i: int| 0 <= i < a.len() implies equivalence_at(
        equal_modulo_origins(#[trigger] a[i], b[i]),
        equal_modulo_origins(b[i], a[i]),
        equal_modulo_origins(b[i], c[i]),
        equal_modulo_origins(a[i], c[i]),
        equal_modulo_origins(a[i], a[i]),
    ) by {
        law_equality_modulo_origins(a[i], b[i], c[i]);
    }
    if a.len() == b.len() {
        assert(all_equal_modulo_origins(b, a) ==> all_equal_modulo_origins(a, b)) by {
            assert forall|i: int| all_equal_modulo_origins(b, a) && 0 <= i < a.len() implies equal_modulo_origins(
                #[trigger] a[i],
                b[i],
            ) by {
                assert(equal_modulo_origins(b[i], a[i]));
            }
        }
        assert(all_equal_modulo_origins(a, b) ==> all_equal_modulo_origins(b, a)) by {
            assert forall|i: int| all_equal_modulo_origins(a, b) && 0 <= i < b.len() implies equal_modulo_origins(
                #[trigger] b[i],
                a[i],
            ) by {
                assert(equal_modulo_origins(a[i], b[i]));
            }
        }
        assert(
            all_equal_modulo_origins(a, b) && all_equal_modulo_origins(b, c) ==> all_equal_modulo_origins(a, c)
        ) by {
            assert forall|i: int|
                all_equal_modulo_origins(a, b) && all_equal_modulo_origins(b, c) && 0 <= i
                    < a.len() implies equal_modulo_origins(#[trigger] a[i], c[i]) by {
                assert(equal_modulo_origins(b[i], c[i]));
            }
        }
    }
}

proof fn lemma_args_modulo_origins(a: Seq<TyArgModel>, b: Seq<TyArgModel>, c: Seq<TyArgModel>)
    ensures
        args_equal_modulo_origins(a, a),
        args_equal_modulo_origins(a, b) == args_equal_modulo_origins(b, a),
        args_equal_modulo_origins(a, b) && args_equal_modulo_origins(b, c) ==> args_equal_modulo_origins(a, c),
    decreases a,
{
    assert forall|i: int| 0 <= i < a.len() implies equivalence_at(
        arg_equal_modulo_origins(#[trigger] a[i], b[i]),
        arg_equal_modulo_origins(b[i], a[i]),
        arg_equal_modulo_origins(b[i], c[i]),
        arg_equal_modulo_origins(a[i], c[i]),
        arg_equal_modulo_origins(a[i], a[i]),
    ) by {
        if let TyArgModel::Ty(x) = a[i] {
            let y = if let TyArgModel::Ty(y) = b[i] { y } else { x };
            let z = if let TyArgModel::Ty(z) = c[i] { z } else { x };
            law_equality_modulo_origins(x, y, z);
        }
    }
    if a.len() == b.len() {
        assert(args_equal_modulo_origins(b, a) ==> args_equal_modulo_origins(a, b)) by {
            assert forall|i: int| args_equal_modulo_origins(b, a) && 0 <= i < a.len() implies arg_equal_modulo_origins(
                #[trigger] a[i],
                b[i],
            ) by {
                assert(arg_equal_modulo_origins(b[i], a[i]));
            }
        }
        assert(args_equal_modulo_origins(a, b) ==> args_equal_modulo_origins(b, a)) by {
            assert forall|i: int| args_equal_modulo_origins(a, b) && 0 <= i < b.len() implies arg_equal_modulo_origins(
                #[trigger] b[i],
                a[i],
            ) by {
                assert(arg_equal_modulo_origins(a[i], b[i]));
            }
        }
        assert(
            args_equal_modulo_origins(a, b) && args_equal_modulo_origins(b, c) ==> args_equal_modulo_origins(a, c)
        ) by {
            assert forall|i: int|
                args_equal_modulo_origins(a, b) && args_equal_modulo_origins(b, c) && 0 <= i
                    < a.len() implies arg_equal_modulo_origins(#[trigger] a[i], c[i]) by {
                assert(arg_equal_modulo_origins(b[i], c[i]));
            }
        }
    }
}

/// A literal solution and a concrete one merge to the concrete one in either order.
pub proof fn law_literal_solutions_give_way(
    name: Seq<char>,
    literal: TyModel,
    concrete: TyModel,
    b: BindingsModel,
)
    requires
        !b.types.dom().contains(name),
        literal_ty(literal),
        !literal_ty(erased(concrete)),
        !symbolic(concrete),
    ensures
        ({
            let merged = solved(BindingsModel { types: b.types.insert(name, erased(concrete)), ..b });
            &&& bind_ty(name, concrete, bind_ty(name, literal, b).bindings) == merged
            &&& bind_ty(name, literal, bind_ty(name, concrete, b).bindings) == merged
        }),
{
    reveal(bind_ty);
    let first = bind_ty(name, literal, b).bindings;
    assert(first.types.insert(name, erased(concrete)) =~= b.types.insert(name, erased(concrete)));
}

/// A solution that is found again, whatever its origins, stays as it was first
/// spelled.
pub proof fn law_first_solution_stays(name: Seq<char>, ty: TyModel, b: BindingsModel)
    requires
        b.types.dom().contains(name),
        !symbolic(ty),
        literal_ty(b.types[name]) == literal_ty(erased(ty)),
        equal_modulo_origins(b.types[name], erased(ty)),
    ensures
        bind_ty(name, ty, b) == solved(b),
{
    reveal(bind_ty);
}

} // verus!
