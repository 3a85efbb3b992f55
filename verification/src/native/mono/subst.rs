//! Substituting solved parameters into types.

use crate::ast::copy_opt_arg_conventions;
use crate::ct::{CtError, CtErrorModel, CtExpr, CtExprModel, CtValue, CtValueModel, ct_eval};
use crate::data::{copy_bools, copy_strings, copy_usizes, strings_view};
use crate::native::mono::{MonoError, MonoErrorModel};
use crate::native::mono::bindings::{Bindings, BindingsModel};
use crate::native::mono::unify::{any_symbolic_arg, is_any_arg_symbolic};
use crate::origin::{RefTy, RefTyModel, copy_opt_boxed_ref_sig, copy_opt_ref_sigs};
use crate::outcome::{collect, lemma_collect_err, lemma_collect_ok};
use crate::symbol::{
    InstanceArg, InstanceArgModel, instance_args_view, instance_name, instance_symbol,
    nominal_template, template_of,
};
use crate::text::{cat3, dec, dec_text_usize, str_eq};
use crate::types::{
    DependentType, DependentTypeModel, Ty, TyArg, TyArgModel, TyModel, opt_boxed_ty_view,
    ty_args_view, ty_text, tys_view,
};
use vstd::prelude::*;

verus! {

/// A failure that no function is named for yet.
pub open spec fn unsupported(construct: Seq<char>) -> MonoErrorModel {
    MonoErrorModel { function: None, construct }
}

/// A failure that no function is named for yet.
pub fn unsupported_error(construct: String) -> (r: MonoError)
    ensures
        r@ == unsupported(construct@),
{
    MonoError { function: None, construct }
}

/// Why a dependent expression has no value.
pub open spec fn ct_failure(e: CtErrorModel) -> MonoErrorModel {
    unsupported(
        match e {
            CtErrorModel::Unresolved(name) => "unresolved value parameter `"@ + name + "`"@,
            CtErrorModel::NotInt => "dependent expression requires an Int value"@,
            CtErrorModel::Undefined => "dependent division has no Int value"@,
            CtErrorModel::Exponent => "dependent exponent is out of range"@,
        },
    )
}

/// The value of a dependent expression under the bound value parameters.
pub open spec fn ct_solution(expr: CtExprModel, b: BindingsModel) -> Result<CtValueModel, MonoErrorModel> {
    match ct_eval(expr, b.values) {
        Ok(value) => Ok(value),
        Err(e) => Err(ct_failure(e)),
    }
}

/// Evaluates a dependent expression under the bound value parameters.
pub fn eval_ct(expr: &CtExpr, bindings: &Bindings) -> (r: Result<CtValue, MonoError>)
    ensures
        match r {
            Ok(value) => ct_solution(expr@, bindings@) == Ok::<CtValueModel, MonoErrorModel>(value@),
            Err(e) => ct_solution(expr@, bindings@) == Err::<CtValueModel, MonoErrorModel>(e@),
        },
{
    match expr.eval(&bindings.values) {
        Ok(value) => Ok(value),
        Err(CtError::Unresolved(name)) => Err(
            unsupported_error(cat3("unresolved value parameter `", &name, "`"))
        ),
        Err(CtError::NotInt) => Err(
            unsupported_error("dependent expression requires an Int value".to_owned())
        ),
        Err(CtError::Undefined) => Err(unsupported_error("dependent division has no Int value".to_owned())),
        Err(CtError::Exponent) => Err(unsupported_error("dependent exponent is out of range".to_owned())),
    }
}

/// The position a dependent index selects.
pub open spec fn index_position(value: CtValueModel) -> Option<usize> {
    match value {
        CtValueModel::Int(v) => if 0 <= v <= usize::MAX { Some(v as usize) } else { None },
        CtValueModel::UInt(v) => if v <= usize::MAX { Some(v as usize) } else { None },
        _ => None,
    }
}

fn dependent_position(value: &CtValue) -> (r: Option<usize>)
    ensures
        r == index_position(value@),
{
    match value {
        CtValue::Int(v) => if *v >= 0 && *v as u64 <= usize::MAX as u64 { Some(*v as usize) } else { None },
        CtValue::UInt(v) => if *v <= usize::MAX as u64 { Some(*v as usize) } else { None },
        _ => None,
    }
}

/// The instance arguments that application arguments stand for: origins take no
/// part in instance identity.
pub open spec fn instance_args_of(args: Seq<TyArgModel>) -> Seq<InstanceArgModel>
    decreases args.len(),
{
    if args.len() == 0 {
        Seq::empty()
    } else {
        let before = instance_args_of(args.drop_last());
        match args.last() {
            TyArgModel::Ty(ty) => before.push(InstanceArgModel::Ty(ty)),
            TyArgModel::Val(value) => before.push(InstanceArgModel::Value(value)),
            TyArgModel::Origin(_) => before,
        }
    }
}

fn identity_args(args: &Vec<TyArg>) -> (r: Vec<InstanceArg>)
    ensures
        instance_args_view(r) == instance_args_of(ty_args_view(*args)),
{
    let ghost model = ty_args_view(*args);
    let mut out: Vec<InstanceArg> = Vec::new();
    assert(instance_args_view(out) =~= Seq::<InstanceArgModel>::empty());
    for i in 0..args.len()
        invariant
            model == ty_args_view(*args),
            instance_args_view(out) == instance_args_of(model.take(i as int)),
    {
        let ghost before = instance_args_view(out);
        assert(model.take(i + 1).drop_last() =~= model.take(i as int));
        match &args[i] {
            TyArg::Ty(ty) => {
                out.push(InstanceArg::Ty(ty.copy()));
                assert(instance_args_view(out) =~= before.push(InstanceArgModel::Ty(ty@)));
            },
            TyArg::Val(value) => {
                out.push(InstanceArg::Value(value.copy()));
                assert(instance_args_view(out) =~= before.push(InstanceArgModel::Value(value@)));
            },
            TyArg::Origin(_) => {},
        }
    }
    assert(model.take(model.len() as int) =~= model);
    out
}

/// The name of a substituted application: a concrete application of a generic
/// template takes its instance symbol, everything else keeps its name.
pub open spec fn application_name(name: Seq<char>, args: Seq<TyArgModel>, b: BindingsModel) -> Seq<char> {
    if any_symbolic_arg(args) || template_of(name) != name || !b.generic_templates.contains(name) {
        name
    } else {
        instance_name(name, instance_args_of(args))
    }
}

/// A type with every parameter replaced by what it stands for. Generic callables
/// stay as they are; what has no solution is an error.
pub open spec fn subst_ty(ty: TyModel, b: BindingsModel) -> Result<TyModel, MonoErrorModel>
    decreases ty,
{
    match ty {
        TyModel::Param { name, .. } => if b.types.dom().contains(name) {
            Ok(b.types[name])
        } else {
            Err(unsupported("unresolved type parameter `"@ + name + "`"@))
        },
        TyModel::Struct(name, args) => if args.len() == 0 {
            match b.self_instance {
                Some((template, concrete)) => if template == name {
                    Ok(concrete)
                } else {
                    Ok(TyModel::Struct(name, Seq::empty()))
                },
                None => Ok(TyModel::Struct(name, Seq::empty())),
            }
        } else {
            match collect(subst_arg_results(args, b)) {
                Ok(new_args) => Ok(TyModel::Struct(application_name(name, new_args, b), new_args)),
                Err(e) => Err(e),
            }
        },
        TyModel::Tuple(v) => match collect(subst_results(v, b)) {
            Ok(w) => Ok(TyModel::Tuple(w)),
            Err(e) => Err(e),
        },
        TyModel::RuntimePack(v) => match collect(subst_results(v, b)) {
            Ok(w) => Ok(TyModel::RuntimePack(w)),
            Err(e) => Err(e),
        },
        TyModel::Variant(v) => match collect(subst_results(v, b)) {
            Ok(w) => Ok(TyModel::Variant(w)),
            Err(e) => Err(e),
        },
        TyModel::Overload(v) => match collect(subst_results(v, b)) {
            Ok(w) => Ok(TyModel::Overload(w)),
            Err(e) => Err(e),
        },
        TyModel::ComptimeList(v) => match subst_ty(*v, b) {
            Ok(w) => Ok(TyModel::ComptimeList(Box::new(w))),
            Err(e) => Err(e),
        },
        TyModel::VariadicPack(v) => match subst_ty(*v, b) {
            Ok(w) => match b.variadic_arity {
                Some(arity) => Ok(TyModel::RuntimePack(Seq::new(arity as nat, |i: int| w))),
                None => Ok(TyModel::VariadicPack(Box::new(w))),
            },
            Err(e) => Err(e),
        },
        TyModel::Pointer { element, origin } => match subst_ty(*element, b) {
            Ok(w) => Ok(TyModel::Pointer { element: Box::new(w), origin }),
            Err(e) => Err(e),
        },
        TyModel::Ref(reference) => match subst_ty(*reference.referent, b) {
            Ok(w) => Ok(TyModel::Ref(RefTyModel { referent: Box::new(w), ..reference })),
            Err(e) => Err(e),
        },
        TyModel::Dependent(DependentTypeModel::Indexed { elements, index }) => match ct_solution(index, b) {
            Ok(value) => match index_position(value) {
                Some(i) => if i < elements.len() {
                    subst_ty(elements[i as int], b)
                } else {
                    Err(unsupported("dependent type index "@ + dec(i as nat) + " is out of range"@))
                },
                None => Err(unsupported("dependent type index is not a non-negative integer"@)),
            },
            Err(e) => Err(e),
        },
        TyModel::Assoc { .. } => if b.associated.dom().contains(ty_text(ty)) {
            Ok(b.associated[ty_text(ty)])
        } else {
            Err(unsupported("associated type `"@ + ty_text(ty) + "` has no concrete MIR declaration fact"@))
        },
        TyModel::SelfType => Err(unsupported("unresolved type `"@ + ty_text(ty) + "`"@)),
        TyModel::Infer => Err(unsupported("unresolved type `"@ + ty_text(ty) + "`"@)),
        TyModel::Func {
            environment,
            params,
            names,
            ret,
            required,
            variadic,
            kw_variadic,
            positional_only,
            keyword_only,
            raises,
            error,
            conventions,
            ref_params,
            ref_return,
            transfers,
        } => match collect(subst_results(params, b)) {
            Err(e) => Err(e),
            Ok(params) => match subst_ty(*ret, b) {
                Err(e) => Err(e),
                Ok(ret) => match subst_opt(variadic, b) {
                    Err(e) => Err(e),
                    Ok(variadic) => match subst_opt(kw_variadic, b) {
                        Err(e) => Err(e),
                        Ok(kw_variadic) => match subst_opt(error, b) {
                            Err(e) => Err(e),
                            Ok(error) => Ok(
                                TyModel::Func {
                                    environment,
                                    params,
                                    names,
                                    ret: Box::new(ret),
                                    required,
                                    variadic,
                                    kw_variadic,
                                    positional_only,
                                    keyword_only,
                                    raises,
                                    error,
                                    conventions,
                                    ref_params,
                                    ref_return,
                                    transfers,
                                },
                            ),
                        },
                    },
                },
            },
        },
        _ => Ok(ty),
    }
}

/// What each type becomes.
pub open spec fn subst_results(tys: Seq<TyModel>, b: BindingsModel) -> Seq<Result<TyModel, MonoErrorModel>>
    decreases tys,
{
    Seq::new(tys.len(), |i: int| if 0 <= i < tys.len() { subst_ty(tys[i], b) } else { arbitrary() })
}

/// What each application argument becomes.
pub open spec fn subst_arg_results(
    args: Seq<TyArgModel>,
    b: BindingsModel,
) -> Seq<Result<TyArgModel, MonoErrorModel>>
    decreases args,
{
    Seq::new(args.len(), |i: int| if 0 <= i < args.len() { subst_arg(args[i], b) } else { arbitrary() })
}

/// What one application argument becomes.
pub open spec fn subst_arg(arg: TyArgModel, b: BindingsModel) -> Result<TyArgModel, MonoErrorModel>
    decreases arg,
{
    match arg {
        TyArgModel::Ty(ty) => match subst_ty(ty, b) {
            Ok(w) => Ok(TyArgModel::Ty(w)),
            Err(e) => Err(e),
        },
        TyArgModel::Val(CtValueModel::Param(name)) => if b.values.dom().contains(name) {
            Ok(TyArgModel::Val(b.values[name]))
        } else {
            Err(unsupported("unresolved value parameter `"@ + name + "`"@))
        },
        _ => Ok(arg),
    }
}

/// What an optional type becomes.
pub open spec fn subst_opt(
    ty: Option<Box<TyModel>>,
    b: BindingsModel,
) -> Result<Option<Box<TyModel>>, MonoErrorModel>
    decreases ty,
{
    match ty {
        Some(t) => match subst_ty(*t, b) {
            Ok(w) => Ok(Some(Box::new(w))),
            Err(e) => Err(e),
        },
        None => Ok(None),
    }
}

/// The model of a substituted type.
pub open spec fn ty_result_view(r: Result<Ty, MonoError>) -> Result<TyModel, MonoErrorModel> {
    match r {
        Ok(ty) => Ok(ty@),
        Err(e) => Err(e@),
    }
}

/// Replaces the parameters in each type.
pub fn sub_types(types: &Vec<Ty>, bindings: &Bindings) -> (r: Result<Vec<Ty>, MonoError>)
    ensures
        match r {
            Ok(v) => collect(
                subst_results(tys_view(*types), bindings@)
            ) == Ok::<Seq<TyModel>, MonoErrorModel>(tys_view(v)),
            Err(e) => collect(
                subst_results(tys_view(*types), bindings@)
            ) == Err::<Seq<TyModel>, MonoErrorModel>(e@),
        },
    decreases types,
{
    let ghost results = subst_results(tys_view(*types), bindings@);
    let mut out: Vec<Ty> = Vec::new();
    for i in 0..types.len()
        invariant
            results == subst_results(tys_view(*types), bindings@),
            out@.len() == i,
            forall|j: int| 0 <= j < i ==> #[trigger] results[j] == Ok::<TyModel, MonoErrorModel>(tys_view(out)[j]),
    {
        assert(results[i as int] == subst_ty(tys_view(*types)[i as int], bindings@));
        match substitute_ty(&types[i], bindings) {
            Ok(ty) => {
                let ghost before = out;
                out.push(ty);
                assert forall|j: int| 0 <= j < i + 1 implies #[trigger] results[j] == Ok::<TyModel, MonoErrorModel>(
                    tys_view(out)[j],
                ) by {
                    if j < i {
                        assert(tys_view(before)[j] == tys_view(out)[j]);
                    }
                }
            },
            Err(e) => {
                proof {
                    lemma_collect_err(results, i as int, e@);
                }
                return Err(e);
            },
        }
    }
    proof {
        lemma_collect_ok(results, tys_view(out));
    }
    Ok(out)
}

/// Replaces the parameters in each application argument.
pub fn sub_args(args: &Vec<TyArg>, bindings: &Bindings) -> (r: Result<Vec<TyArg>, MonoError>)
    ensures
        match r {
            Ok(v) => collect(subst_arg_results(ty_args_view(*args), bindings@)) == Ok::<Seq<TyArgModel>, MonoErrorModel>(
                ty_args_view(v),
            ),
            Err(e) => collect(subst_arg_results(ty_args_view(*args), bindings@)) == Err::<
                Seq<TyArgModel>,
                MonoErrorModel,
            >(e@),
        },
    decreases args,
{
    let ghost results = subst_arg_results(ty_args_view(*args), bindings@);
    let mut out: Vec<TyArg> = Vec::new();
    for i in 0..args.len()
        invariant
            results == subst_arg_results(ty_args_view(*args), bindings@),
            out@.len() == i,
            forall|j: int| 0 <= j < i ==> #[trigger] results[j] == Ok::<TyArgModel, MonoErrorModel>(ty_args_view(out)[j]),
    {
        assert(results[i as int] == subst_arg(ty_args_view(*args)[i as int], bindings@));
        match substitute_arg(&args[i], bindings) {
            Ok(arg) => {
                let ghost before = out;
                out.push(arg);
                assert forall|j: int| 0 <= j < i + 1 implies #[trigger] results[j] == Ok::<TyArgModel, MonoErrorModel>(
                    ty_args_view(out)[j],
                ) by {
                    if j < i {
                        assert(ty_args_view(before)[j] == ty_args_view(out)[j]);
                    }
                }
            },
            Err(e) => {
                proof {
                    lemma_collect_err(results, i as int, e@);
                }
                return Err(e);
            },
        }
    }
    proof {
        lemma_collect_ok(results, ty_args_view(out));
    }
    Ok(out)
}

fn sub_boxed(ty: &Option<Box<Ty>>, bindings: &Bindings) -> (r: Result<Option<Box<Ty>>, MonoError>)
    ensures
        match r {
            Ok(v) => subst_opt(opt_boxed_ty_view(*ty), bindings@) == Ok::<Option<Box<TyModel>>, MonoErrorModel>(
                opt_boxed_ty_view(v),
            ),
            Err(e) => subst_opt(
                opt_boxed_ty_view(*ty),
                bindings@,
            ) == Err::<Option<Box<TyModel>>, MonoErrorModel>(e@),
        },
    decreases ty,
{
    match ty {
        Some(t) => match substitute_ty(t, bindings) {
            Ok(w) => Ok(Some(Box::new(w))),
            Err(e) => Err(e),
        },
        None => Ok(None),
    }
}

/// Replaces the parameters in an application argument.
pub fn substitute_arg(arg: &TyArg, bindings: &Bindings) -> (r: Result<TyArg, MonoError>)
    ensures
        match r {
            Ok(v) => subst_arg(arg@, bindings@) == Ok::<TyArgModel, MonoErrorModel>(v@),
            Err(e) => subst_arg(arg@, bindings@) == Err::<TyArgModel, MonoErrorModel>(e@),
        },
    decreases arg,
{
    match arg {
        TyArg::Ty(ty) => match substitute_ty(ty, bindings) {
            Ok(w) => Ok(TyArg::Ty(w)),
            Err(e) => Err(e),
        },
        TyArg::Val(value) => {
            if let CtValue::Param(name) = value {
                match bindings.value(name) {
                    Some(bound) => Ok(TyArg::Val(bound.copy())),
                    None => Err(unsupported_error(cat3("unresolved value parameter `", name, "`"))),
                }
            } else {
                Ok(arg.copy())
            }
        },
        TyArg::Origin(_) => Ok(arg.copy()),
    }
}

/// `n` copies of a type.
pub fn repeated(ty: &Ty, n: usize) -> (r: Vec<Ty>)
    ensures
        tys_view(r) == Seq::new(n as nat, |i: int| ty@),
{
    let mut out: Vec<Ty> = Vec::new();
    for i in 0..n
        invariant
            out@.len() == i,
            forall|j: int| 0 <= j < i ==> (#[trigger] out@[j])@ == ty@,
    {
        out.push(ty.copy());
    }
    assert(tys_view(out) =~= Seq::new(n as nat, |i: int| ty@));
    out
}

fn has_template(templates: &Vec<String>, name: &str) -> (r: bool)
    ensures
        r == strings_view(*templates).contains(name@),
{
    let ghost model = strings_view(*templates);
    for i in 0..templates.len()
        invariant
            model == strings_view(*templates),
            forall|j: int| 0 <= j < i ==> model[j] != name@,
    {
        if str_eq(&templates[i], name) {
            assert(model[i as int] == name@);
            return true;
        }
    }
    false
}

/// Replaces every parameter in the type by what it stands for.
pub fn substitute_ty(ty: &Ty, bindings: &Bindings) -> (r: Result<Ty, MonoError>)
    ensures
        ty_result_view(r) == subst_ty(ty@, bindings@),
    decreases ty,
{
    match ty {
        Ty::Param { name, .. } => match bindings.ty(name) {
            Some(bound) => Ok(bound.copy()),
            None => Err(unsupported_error(cat3("unresolved type parameter `", name, "`"))),
        },
        Ty::Struct(name, args) => {
            assert(ty_args_view(*args).len() == args@.len());
            if args.len() == 0 {
                if let Some(instance) = &bindings.self_instance {
                    if instance.0 == *name {
                        return Ok(instance.1.copy());
                    }
                }
                let none: Vec<TyArg> = Vec::new();
                assert(ty_args_view(none) =~= Seq::<TyArgModel>::empty());
                return Ok(Ty::Struct(name.clone(), none));
            }
            let new_args: Vec<TyArg> = match sub_args(args, bindings) {
                Ok(v) => v,
                Err(e) => return Err(e),
            };
            let keeps_name: bool = is_any_arg_symbolic(&new_args) || !str_eq(nominal_template(name), name)
                || !has_template(&bindings.generic_templates, name);
            let new_name: String = if keeps_name {
                name.clone()
            } else {
                instance_symbol(name, &identity_args(&new_args))
            };
            Ok(Ty::Struct(new_name, new_args))
        },
        Ty::Tuple(v) => match sub_types(v, bindings) {
            Ok(w) => Ok(Ty::Tuple(w)),
            Err(e) => Err(e),
        },
        Ty::RuntimePack(v) => match sub_types(v, bindings) {
            Ok(w) => Ok(Ty::RuntimePack(w)),
            Err(e) => Err(e),
        },
        Ty::Variant(v) => match sub_types(v, bindings) {
            Ok(w) => Ok(Ty::Variant(w)),
            Err(e) => Err(e),
        },
        Ty::Overload(v) => match sub_types(v, bindings) {
            Ok(w) => Ok(Ty::Overload(w)),
            Err(e) => Err(e),
        },
        Ty::ComptimeList(v) => match substitute_ty(v, bindings) {
            Ok(w) => Ok(Ty::ComptimeList(Box::new(w))),
            Err(e) => Err(e),
        },
        Ty::VariadicPack(v) => match substitute_ty(v, bindings) {
            Ok(w) => match bindings.variadic_arity {
                Some(arity) => Ok(Ty::RuntimePack(repeated(&w, arity))),
                None => Ok(Ty::VariadicPack(Box::new(w))),
            },
            Err(e) => Err(e),
        },
        Ty::Pointer { element, origin } => match substitute_ty(element, bindings) {
            Ok(w) => Ok(Ty::Pointer { element: Box::new(w), origin: origin.copy() }),
            Err(e) => Err(e),
        },
        Ty::Ref(reference) => {
            assert(*reference@.referent == reference.referent@);
            match substitute_ty(&reference.referent, bindings) {
                Ok(w) => {
                    let out: RefTy = RefTy {
                        referent: Box::new(w),
                        origin: reference.origin.copy(),
                        mutability: reference.mutability,
                    };
                    assert(out@ == (RefTyModel { referent: Box::new(w@), ..reference@ }));
                    Ok(Ty::Ref(out))
                },
                Err(e) => Err(e),
            }
        },
        Ty::Dependent(dependent) => match dependent {
            DependentType::Indexed { elements, index } => {
                assert(
                    dependent@ == (DependentTypeModel::Indexed { elements: tys_view(*elements), index: index@ })
                );
                assert(tys_view(*elements).len() == elements@.len());
                let value: CtValue = match eval_ct(index, bindings) {
                    Ok(v) => v,
                    Err(e) => return Err(e),
                };
                match dependent_position(&value) {
                    Some(i) => if i < elements.len() {
                        assert(tys_view(*elements)[i as int] == elements@[i as int]@);
                        substitute_ty(&elements[i], bindings)
                    } else {
                        Err(
                            unsupported_error(
                                cat3("dependent type index ", &dec_text_usize(i), " is out of range")
                            )
                        )
                    },
                    None => Err(
                        unsupported_error("dependent type index is not a non-negative integer".to_owned())
                    ),
                }
            },
        },
        Ty::Assoc { .. } => match bindings.associated_ty(&ty.text()) {
            Some(bound) => Ok(bound.copy()),
            None => Err(
                unsupported_error(
                    cat3("associated type `", &ty.text(), "` has no concrete MIR declaration fact"),
                ),
            ),
        },
        Ty::SelfType => Err(unsupported_error(cat3("unresolved type `", &ty.text(), "`"))),
        Ty::Infer => Err(unsupported_error(cat3("unresolved type `", &ty.text(), "`"))),
        Ty::Func {
            environment,
            params,
            names,
            ret,
            required,
            variadic,
            kw_variadic,
            positional_only,
            keyword_only,
            raises,
            error,
            conventions,
            ref_params,
            ref_return,
            transfers,
        } => {
            let params: Vec<Ty> = match sub_types(params, bindings) {
                Ok(v) => v,
                Err(e) => return Err(e),
            };
            let ret: Ty = match substitute_ty(ret, bindings) {
                Ok(v) => v,
                Err(e) => return Err(e),
            };
            let variadic: Option<Box<Ty>> = match sub_boxed(variadic, bindings) {
                Ok(v) => v,
                Err(e) => return Err(e),
            };
            let kw_variadic: Option<Box<Ty>> = match sub_boxed(kw_variadic, bindings) {
                Ok(v) => v,
                Err(e) => return Err(e),
            };
            let error: Option<Box<Ty>> = match sub_boxed(error, bindings) {
                Ok(v) => v,
                Err(e) => return Err(e),
            };
            Ok(
                Ty::Func {
                    environment: environment.copy(),
                    params,
                    names: copy_strings(names),
                    ret: Box::new(ret),
                    required: copy_bools(required),
                    variadic,
                    kw_variadic,
                    positional_only: *positional_only,
                    keyword_only: *keyword_only,
                    raises: *raises,
                    error,
                    conventions: copy_opt_arg_conventions(conventions),
                    ref_params: copy_opt_ref_sigs(ref_params),
                    ref_return: copy_opt_boxed_ref_sig(ref_return),
                    transfers: copy_usizes(transfers),
                },
            )
        },
        _ => Ok(ty.copy()),
    }
}

} // verus!
