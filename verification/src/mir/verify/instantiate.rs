//! Instantiation of checked types and of generic callable contracts.

use crate::ast::copy_opt_arg_conventions;
use crate::ct::{CtExpr, CtExprModel, CtValue, CtValueModel, ct_eval, ct_params, values_view};
use crate::data::{copy_bools, copy_strings, copy_usizes, strings_view};
use crate::literal::literal_value;
use crate::mir::verify::Checker;
use crate::native::mono::bindings::types_view;
use crate::order::{put_name, put_sorted, str_less};
use crate::origin::{RefTy, RefTyModel, copy_opt_boxed_ref_sig, copy_opt_ref_sigs};
use crate::outcome::{collect, lemma_collect_err, lemma_collect_ok};
use crate::table::NameMap;
use crate::text::{
    cat2, cat3, cat4, cat5, dec, dec_int, dec_text_i64, dec_text_usize, join, join_push, trim_stars,
    without_stars,
};
use crate::types::{
    DependentType, DependentTypeModel, ParamDecl, ParamDeclModel, Ty, TyArg, TyArgModel, TyModel,
    copy_opt_boxed_ty, copy_tys, decl_name, opt_boxed_ty_view, param_decls_view, ty_args_view,
    tys_view,
};
use vstd::prelude::*;

verus! {

/// The names that are not bound, sorted, each once.
pub open spec fn unbound_names(names: Seq<Seq<char>>, bound: Seq<Seq<char>>) -> Seq<Seq<char>>
    decreases names.len(),
{
    if names.len() == 0 {
        Seq::empty()
    } else {
        let before = unbound_names(names.drop_last(), bound);
        if bound.contains(names.last()) { before } else { put_sorted(before, names.last(), str_less()) }
    }
}

/// The index a dependent type selects.
pub open spec fn checked_index(value: CtValueModel) -> Option<i64> {
    match value {
        CtValueModel::Int(v) => Some(v),
        CtValueModel::UInt(v) => if v <= i64::MAX { Some(v as i64) } else { None },
        CtValueModel::IntLiteral(literal) => if i64::MIN <= literal_value(literal) <= i64::MAX {
            Some(literal_value(literal) as i64)
        } else {
            None
        },
        _ => None,
    }
}

/// What a dependent type becomes once its elements are instantiated. An index that
/// only names bound parameters stays.
pub open spec fn inst_index(
    elements: Seq<TyModel>,
    index: CtExprModel,
    values: Map<Seq<char>, CtValueModel>,
    bound: Seq<Seq<char>>,
) -> Result<TyModel, Seq<char>> {
    match ct_eval(index, values) {
        Err(_) => {
            let names = ct_params(index);
            let unbound = unbound_names(names, bound);
            if names.len() > 0 && unbound.len() == 0 {
                Ok(TyModel::Dependent(DependentTypeModel::Indexed { elements, index }))
            } else if unbound.len() == 0 {
                Err("dependent index did not evaluate to a compile-time value"@)
            } else {
                Err("dependent index references unsubstituted parameter(s): "@ + join(unbound, ", "@))
            }
        },
        Ok(value) => match checked_index(value) {
            None => Err("dependent index is not an Int"@),
            Some(v) => if v < 0 || v > usize::MAX {
                Err("dependent index "@ + dec_int(v as int) + " is negative"@)
            } else if v < elements.len() {
                Ok(elements[v as int])
            } else {
                Err(
                    "dependent index "@ + dec_int(v as int) + " is out of range for "@ + dec(elements.len())
                        + " element(s)"@,
                )
            },
        },
    }
}

/// A checked type with its parameters replaced by generic arguments. Parameters
/// without an argument stay; nested generic contracts own their scope and stay
/// whole.
pub open spec fn inst_ty(
    ty: TyModel,
    types: Map<Seq<char>, TyModel>,
    values: Map<Seq<char>, CtValueModel>,
    bound: Seq<Seq<char>>,
) -> Result<TyModel, Seq<char>>
    decreases ty,
{
    match ty {
        TyModel::Param { name, .. } => if types.dom().contains(name) {
            Ok(types[name])
        } else if types.dom().contains(without_stars(name)) {
            Ok(types[without_stars(name)])
        } else {
            Ok(ty)
        },
        TyModel::Dependent(DependentTypeModel::Indexed { elements, index }) => match collect(
            inst_results(elements, types, values, bound),
        ) {
            Err(e) => Err(e),
            Ok(elements) => inst_index(elements, index, values, bound),
        },
        TyModel::Struct(name, args) => match collect(inst_arg_results(args, types, values, bound)) {
            Err(e) => Err(e),
            Ok(args) => Ok(TyModel::Struct(name, args)),
        },
        TyModel::ComptimeList(element) => match inst_ty(*element, types, values, bound) {
            Err(e) => Err(e),
            Ok(t) => Ok(TyModel::ComptimeList(Box::new(t))),
        },
        TyModel::Tuple(elements) => match collect(inst_results(elements, types, values, bound)) {
            Err(e) => Err(e),
            Ok(v) => Ok(TyModel::Tuple(v)),
        },
        TyModel::RuntimePack(elements) => match collect(inst_results(elements, types, values, bound)) {
            Err(e) => Err(e),
            Ok(v) => Ok(TyModel::RuntimePack(v)),
        },
        TyModel::VariadicPack(element) => match inst_ty(*element, types, values, bound) {
            Err(e) => Err(e),
            Ok(t) => Ok(TyModel::VariadicPack(Box::new(t))),
        },
        TyModel::Variant(elements) => match collect(inst_results(elements, types, values, bound)) {
            Err(e) => Err(e),
            Ok(v) => Ok(TyModel::Variant(v)),
        },
        TyModel::Pointer { element, origin } => match inst_ty(*element, types, values, bound) {
            Err(e) => Err(e),
            Ok(t) => Ok(TyModel::Pointer { element: Box::new(t), origin }),
        },
        TyModel::Ref(reference) => match inst_ty(*reference.referent, types, values, bound) {
            Err(e) => Err(e),
            Ok(t) => Ok(TyModel::Ref(RefTyModel { referent: Box::new(t), ..reference })),
        },
        TyModel::Assoc { base, name, args } => match inst_ty(*base, types, values, bound) {
            Err(e) => Err(e),
            Ok(t) => match collect(inst_arg_results(args, types, values, bound)) {
                Err(e) => Err(e),
                Ok(args) => Ok(TyModel::Assoc { base: Box::new(t), name, args }),
            },
        },
        TyModel::Overload(candidates) => match collect(inst_results(candidates, types, values, bound)) {
            Err(e) => Err(e),
            Ok(v) => Ok(TyModel::Overload(v)),
        },
        TyModel::Func {
            environment,
            params,
            names,
            ret,
            required,
            variadic,
            kw_variadic,
            positional_only,
            keyword_only,
            raises,
            error,
            conventions,
            ref_params,
            ref_return,
            transfers,
        } => match collect(inst_results(params, types, values, bound)) {
            Err(e) => Err(e),
            Ok(params) => match inst_ty(*ret, types, values, bound) {
                Err(e) => Err(e),
                Ok(ret) => match inst_opt(variadic, types, values, bound) {
                    Err(e) => Err(e),
                    Ok(variadic) => match inst_opt(kw_variadic, types, values, bound) {
                        Err(e) => Err(e),
                        Ok(kw_variadic) => match inst_opt(error, types, values, bound) {
                            Err(e) => Err(e),
                            Ok(error) => Ok(
                                TyModel::Func {
                                    environment,
                                    params,
                                    names,
                                    ret: Box::new(ret),
                                    required,
                                    variadic,
                                    kw_variadic,
                                    positional_only,
                                    keyword_only,
                                    raises,
                                    error,
                                    conventions,
                                    ref_params,
                                    ref_return,
                                    transfers,
                                },
                            ),
                        },
                    },
                },
            },
        },
        _ => Ok(ty),
    }
}

/// What each type becomes.
pub open spec fn inst_results(
    tys: Seq<TyModel>,
    types: Map<Seq<char>, TyModel>,
    values: Map<Seq<char>, CtValueModel>,
    bound: Seq<Seq<char>>,
) -> Seq<Result<TyModel, Seq<char>>>
    decreases tys,
{
    Seq::new(
        tys.len(),
        |i: int| if 0 <= i < tys.len() { inst_ty(tys[i], types, values, bound) } else { arbitrary() },
    )
}

/// What an application argument becomes: values and origins stay.
pub open spec fn inst_arg(
    arg: TyArgModel,
    types: Map<Seq<char>, TyModel>,
    values: Map<Seq<char>, CtValueModel>,
    bound: Seq<Seq<char>>,
) -> Result<TyArgModel, Seq<char>>
    decreases arg,
{
    match arg {
        TyArgModel::Ty(ty) => match inst_ty(ty, types, values, bound) {
            Err(e) => Err(e),
            Ok(t) => Ok(TyArgModel::Ty(t)),
        },
        _ => Ok(arg),
    }
}

/// What each application argument becomes.
pub open spec fn inst_arg_results(
    args: Seq<TyArgModel>,
    types: Map<Seq<char>, TyModel>,
    values: Map<Seq<char>, CtValueModel>,
    bound: Seq<Seq<char>>,
) -> Seq<Result<TyArgModel, Seq<char>>>
    decreases args,
{
    Seq::new(
        args.len(),
        |i: int| if 0 <= i < args.len() { inst_arg(args[i], types, values, bound) } else { arbitrary() },
    )
}

/// What an optional type becomes.
pub open spec fn inst_opt(
    ty: Option<Box<TyModel>>,
    types: Map<Seq<char>, TyModel>,
    values: Map<Seq<char>, CtValueModel>,
    bound: Seq<Seq<char>>,
) -> Result<Option<Box<TyModel>>, Seq<char>>
    decreases ty,
{
    match ty {
        Some(t) => match inst_ty(*t, types, values, bound) {
            Err(e) => Err(e),
            Ok(t) => Ok(Some(Box::new(t))),
        },
        None => Ok(None),
    }
}

/// The model of an instantiated type.
pub open spec fn inst_view(r: Result<Ty, String>) -> Result<TyModel, Seq<char>> {
    match r {
        Ok(ty) => Ok(ty@),
        Err(e) => Err(e@),
    }
}

fn has_name(names: &Vec<String>, name: &String) -> (r: bool)
    ensures
        r == strings_view(*names).contains(name@),
{
    let ghost model = strings_view(*names);
    for i in 0..names.len()
        invariant
            model == strings_view(*names),
            forall|j: int| 0 <= j < i ==> model[j] != name@,
    {
        if names[i] == *name {
            assert(model[i as int] == name@);
            return true;
        }
    }
    false
}

fn unbound_list(names: &Vec<String>, bound: &Vec<String>) -> (r: Vec<String>)
    ensures
        strings_view(r) == unbound_names(strings_view(*names), strings_view(*bound)),
{
    let ghost model = strings_view(*names);
    let mut out: Vec<String> = Vec::new();
    assert(strings_view(out) =~= Seq::<Seq<char>>::empty());
    for i in 0..names.len()
        invariant
            model == strings_view(*names),
            strings_view(out) == unbound_names(model.take(i as int), strings_view(*bound)),
    {
        assert(model.take(i + 1).drop_last() =~= model.take(i as int));
        assert(model[i as int] == names@[i as int]@);
        if !has_name(bound, &names[i]) {
            put_name(&mut out, names[i].clone());
        }
    }
    assert(model.take(model.len() as int) =~= model);
    out
}

fn comma_list(names: &Vec<String>) -> (r: String)
    ensures
        r@ == join(strings_view(*names), ", "@),
{
    let mut s: String = String::new();
    let ghost texts = strings_view(*names);
    for i in 0..names.len()
        invariant
            texts == strings_view(*names),
            s@ == join(texts.take(i as int), ", "@),
    {
        assert(texts.take(i + 1) =~= texts.take(i as int).push(texts[i as int]));
        join_push(&mut s, i == 0, ", ", &names[i], Ghost(texts.take(i as int)));
    }
    assert(texts.take(texts.len() as int) =~= texts);
    s
}

fn index_of(value: &CtValue) -> (r: Option<i64>)
    ensures
        r == checked_index(value@),
{
    match value {
        CtValue::Int(v) => Some(*v),
        CtValue::UInt(v) => if *v <= 0x7fff_ffff_ffff_ffff { Some(*v as i64) } else { None },
        CtValue::IntLiteral(literal) => literal.to_i64(),
        _ => None,
    }
}

fn instantiate_index(
    elements: Vec<Ty>,
    index: &CtExpr,
    values: &NameMap<CtValue>,
    bound: &Vec<String>,
) -> (r: Result<Ty, String>)
    ensures
        inst_view(r) == inst_index(tys_view(elements), index@, values_view(values@), strings_view(*bound)),
{
    let ghost model = tys_view(elements);
    assert(model.len() == elements@.len());
    match index.eval(values) {
        Err(_) => {
            let mut names: Vec<String> = Vec::new();
            index.referenced_parameters(&mut names);
            assert(strings_view(names) =~= ct_params(index@));
            let unbound: Vec<String> = unbound_list(&names, bound);
            assert(strings_view(unbound).len() == unbound@.len());
            if names.len() > 0 && unbound.len() == 0 {
                let dependent: DependentType = DependentType::Indexed { elements, index: index.copy() };
                assert(dependent@ == (DependentTypeModel::Indexed { elements: model, index: index@ }));
                Ok(Ty::Dependent(dependent))
            } else if unbound.len() == 0 {
                Err("dependent index did not evaluate to a compile-time value".to_owned())
            } else {
                Err(cat2("dependent index references unsubstituted parameter(s): ", &comma_list(&unbound)))
            }
        },
        Ok(value) => match index_of(&value) {
            None => Err("dependent index is not an Int".to_owned()),
            Some(v) => if v < 0 || v as u64 > usize::MAX as u64 {
                Err(cat3("dependent index ", &dec_text_i64(v), " is negative"))
            } else if (v as usize) < elements.len() {
                assert(model[v as int] == elements@[v as int]@);
                Ok(elements[v as usize].copy())
            } else {
                Err(
                    cat5(
                        "dependent index ",
                        &dec_text_i64(v),
                        " is out of range for ",
                        &dec_text_usize(elements.len()),
                        " element(s)",
                    ),
                )
            },
        },
    }
}

fn instantiate_all(
    tys: &Vec<Ty>,
    types: &NameMap<Ty>,
    values: &NameMap<CtValue>,
    bound: &Vec<String>,
) -> (r: Result<Vec<Ty>, String>)
    ensures
        ({
            let results = inst_results(
                tys_view(*tys),
                types_view(types@),
                values_view(values@),
                strings_view(*bound),
            );
            match r {
                Ok(v) => collect(results) == Ok::<Seq<TyModel>, Seq<char>>(tys_view(v)),
                Err(e) => collect(results) == Err::<Seq<TyModel>, Seq<char>>(e@),
            }
        }),
    decreases tys,
{
    let ghost results = inst_results(
        tys_view(*tys),
        types_view(types@),
        values_view(values@),
        strings_view(*bound),
    );
    let mut out: Vec<Ty> = Vec::new();
    for i in 0..tys.len()
        invariant
            results == inst_results(
                tys_view(*tys),
                types_view(types@),
                values_view(values@),
                strings_view(*bound),
            ),
            out@.len() == i,
            forall|j: int| 0 <= j < i ==> #[trigger] results[j] == Ok::<TyModel, Seq<char>>(tys_view(out)[j]),
    {
        assert(results[i as int] == inst_ty(
            tys@[i as int]@,
            types_view(types@),
            values_view(values@),
            strings_view(*bound),
        ));
        match instantiate_checked_type(&tys[i], types, values, bound) {
            Ok(ty) => {
                let ghost before = out;
                out.push(ty);
                assert forall|j: int| 0 <= j < i + 1 implies #[trigger] results[j] == Ok::<TyModel, Seq<char>>(
                    tys_view(out)[j],
                ) by {
                    if j < i {
                        assert(tys_view(before)[j] == tys_view(out)[j]);
                    }
                }
            },
            Err(e) => {
                proof {
                    lemma_collect_err(results, i as int, e@);
                }
                return Err(e);
            },
        }
    }
    proof {
        lemma_collect_ok(results, tys_view(out));
    }
    Ok(out)
}

fn instantiate_args(
    args: &Vec<TyArg>,
    types: &NameMap<Ty>,
    values: &NameMap<CtValue>,
    bound: &Vec<String>,
) -> (r: Result<Vec<TyArg>, String>)
    ensures
        ({
            let results = inst_arg_results(
                ty_args_view(*args),
                types_view(types@),
                values_view(values@),
                strings_view(*bound),
            );
            match r {
                Ok(v) => collect(results) == Ok::<Seq<TyArgModel>, Seq<char>>(ty_args_view(v)),
                Err(e) => collect(results) == Err::<Seq<TyArgModel>, Seq<char>>(e@),
            }
        }),
    decreases args,
{
    let ghost results = inst_arg_results(
        ty_args_view(*args),
        types_view(types@),
        values_view(values@),
        strings_view(*bound),
    );
    let mut out: Vec<TyArg> = Vec::new();
    for i in 0..args.len()
        invariant
            results == inst_arg_results(
                ty_args_view(*args),
                types_view(types@),
                values_view(values@),
                strings_view(*bound),
            ),
            out@.len() == i,
            forall|j: int| 0 <= j < i ==> #[trigger] results[j] == Ok::<TyArgModel, Seq<char>>(ty_args_view(out)[j]),
    {
        assert(results[i as int] == inst_arg(
            args@[i as int]@,
            types_view(types@),
            values_view(values@),
            strings_view(*bound),
        ));
        let next: Result<TyArg, String> = match &args[i] {
            TyArg::Ty(ty) => match instantiate_checked_type(ty, types, values, bound) {
                Ok(t) => Ok(TyArg::Ty(t)),
                Err(e) => Err(e),
            },
            other => Ok(other.copy()),
        };
        match next {
            Ok(arg) => {
                let ghost before = out;
                out.push(arg);
                assert forall|j: int| 0 <= j < i + 1 implies #[trigger] results[j] == Ok::<TyArgModel, Seq<char>>(
                    ty_args_view(out)[j],
                ) by {
                    if j < i {
                        assert(ty_args_view(before)[j] == ty_args_view(out)[j]);
                    }
                }
            },
            Err(e) => {
                proof {
                    lemma_collect_err(results, i as int, e@);
                }
                return Err(e);
            },
        }
    }
    proof {
        lemma_collect_ok(results, ty_args_view(out));
    }
    Ok(out)
}

fn instantiate_opt(
    ty: &Option<Box<Ty>>,
    types: &NameMap<Ty>,
    values: &NameMap<CtValue>,
    bound: &Vec<String>,
) -> (r: Result<Option<Box<Ty>>, String>)
    ensures
        ({
            let wanted = inst_opt(
                opt_boxed_ty_view(*ty),
                types_view(types@),
                values_view(values@),
                strings_view(*bound),
            );
            match r {
                Ok(v) => wanted == Ok::<Option<Box<TyModel>>, Seq<char>>(opt_boxed_ty_view(v)),
                Err(e) => wanted == Err::<Option<Box<TyModel>>, Seq<char>>(e@),
            }
        }),
    decreases ty,
{
    match ty {
        Some(t) => match instantiate_checked_type(t, types, values, bound) {
            Ok(w) => Ok(Some(Box::new(w))),
            Err(e) => Err(e),
        },
        None => Ok(None),
    }
}

/// Replaces the parameters of a checked type by generic arguments.
pub fn instantiate_checked_type(
    ty: &Ty,
    type_arguments: &NameMap<Ty>,
    value_arguments: &NameMap<CtValue>,
    bound_values: &Vec<String>,
) -> (r: Result<Ty, String>)
    ensures
        inst_view(r) == inst_ty(
            ty@,
            types_view(type_arguments@),
            values_view(value_arguments@),
            strings_view(*bound_values),
        ),
    decreases ty,
{
    match ty {
        Ty::Param { name, .. } => {
            if let Some(bound) = type_arguments.get(name) {
                return Ok(bound.copy());
            }
            if let Some(bound) = type_arguments.get(&trim_stars(name)) {
                return Ok(bound.copy());
            }
            Ok(ty.copy())
        },
        Ty::Dependent(dependent) => match dependent {
            DependentType::Indexed { elements, index } => {
                assert(
                    dependent@ == (DependentTypeModel::Indexed { elements: tys_view(*elements), index: index@ })
                );
                match instantiate_all(elements, type_arguments, value_arguments, bound_values) {
                    Ok(v) => instantiate_index(v, index, value_arguments, bound_values),
                    Err(e) => Err(e),
                }
            },
        },
        Ty::Struct(name, args) => match instantiate_args(args, type_arguments, value_arguments, bound_values) {
            Ok(v) => Ok(Ty::Struct(name.clone(), v)),
            Err(e) => Err(e),
        },
        Ty::ComptimeList(element) => match instantiate_checked_type(
            element,
            type_arguments,
            value_arguments,
            bound_values,
        ) {
            Ok(t) => Ok(Ty::ComptimeList(Box::new(t))),
            Err(e) => Err(e),
        },
        Ty::Tuple(elements) => match instantiate_all(elements, type_arguments, value_arguments, bound_values) {
            Ok(v) => Ok(Ty::Tuple(v)),
            Err(e) => Err(e),
        },
        Ty::RuntimePack(elements) => match instantiate_all(
            elements,
            type_arguments,
            value_arguments,
            bound_values,
        ) {
            Ok(v) => Ok(Ty::RuntimePack(v)),
            Err(e) => Err(e),
        },
        Ty::VariadicPack(element) => match instantiate_checked_type(
            element,
            type_arguments,
            value_arguments,
            bound_values,
        ) {
            Ok(t) => Ok(Ty::VariadicPack(Box::new(t))),
            Err(e) => Err(e),
        },
        Ty::Variant(elements) => match instantiate_all(
            elements,
            type_arguments,
            value_arguments,
            bound_values,
        ) {
            Ok(v) => Ok(Ty::Variant(v)),
            Err(e) => Err(e),
        },
        Ty::Pointer { element, origin } => match instantiate_checked_type(
            element,
            type_arguments,
            value_arguments,
            bound_values,
        ) {
            Ok(t) => Ok(Ty::Pointer { element: Box::new(t), origin: origin.copy() }),
            Err(e) => Err(e),
        },
        Ty::Ref(reference) => {
            assert(*reference@.referent == reference.referent@);
            match instantiate_checked_type(&reference.referent, type_arguments, value_arguments, bound_values) {
                Ok(t) => {
                    let out: RefTy = RefTy {
                        referent: Box::new(t),
                        origin: reference.origin.copy(),
                        mutability: reference.mutability,
                    };
                    assert(out@ == (RefTyModel { referent: Box::new(t@), ..reference@ }));
                    Ok(Ty::Ref(out))
                },
                Err(e) => Err(e),
            }
        },
        Ty::Assoc { base, name, args } => {
            let base: Ty = match instantiate_checked_type(base, type_arguments, value_arguments, bound_values) {
                Ok(t) => t,
                Err(e) => return Err(e),
            };
            match instantiate_args(args, type_arguments, value_arguments, bound_values) {
                Ok(v) => Ok(Ty::Assoc { base: Box::new(base), name: name.clone(), args: v }),
                Err(e) => Err(e),
            }
        },
        Ty::Overload(candidates) => match instantiate_all(
            candidates,
            type_arguments,
            value_arguments,
            bound_values,
        ) {
            Ok(v) => Ok(Ty::Overload(v)),
            Err(e) => Err(e),
        },
        Ty::Func {
            environment,
            params,
            names,
            ret,
            required,
            variadic,
            kw_variadic,
            positional_only,
            keyword_only,
            raises,
            error,
            conventions,
            ref_params,
            ref_return,
            transfers,
        } => {
            let params: Vec<Ty> = match instantiate_all(params, type_arguments, value_arguments, bound_values) {
                Ok(v) => v,
                Err(e) => return Err(e),
            };
            let ret: Ty = match instantiate_checked_type(ret, type_arguments, value_arguments, bound_values) {
                Ok(v) => v,
                Err(e) => return Err(e),
            };
            let variadic: Option<Box<Ty>> = match instantiate_opt(
                variadic,
                type_arguments,
                value_arguments,
                bound_values,
            ) {
                Ok(v) => v,
                Err(e) => return Err(e),
            };
            let kw_variadic: Option<Box<Ty>> = match instantiate_opt(
                kw_variadic,
                type_arguments,
                value_arguments,
                bound_values,
            ) {
                Ok(v) => v,
                Err(e) => return Err(e),
            };
            let error: Option<Box<Ty>> = match instantiate_opt(
                error,
                type_arguments,
                value_arguments,
                bound_values,
            ) {
                Ok(v) => v,
                Err(e) => return Err(e),
            };
            Ok(
                Ty::Func {
                    environment: environment.copy(),
                    params,
                    names: copy_strings(names),
                    ret: Box::new(ret),
                    required: copy_bools(required),
                    variadic,
                    kw_variadic,
                    positional_only: *positional_only,
                    keyword_only: *keyword_only,
                    raises: *raises,
                    error,
                    conventions: copy_opt_arg_conventions(conventions),
                    ref_params: copy_opt_ref_sigs(ref_params),
                    ref_return: copy_opt_boxed_ref_sig(ref_return),
                    transfers: copy_usizes(transfers),
                },
            )
        },
        _ => Ok(ty.copy()),
    }
}

/// Generic arguments by the name of the parameter they stand for, without its
/// stars.
#[derive(Debug)]
pub struct GenericArgumentMaps {
    pub types: NameMap<Ty>,
    pub values: NameMap<CtValue>,
}

/// Mathematical model of [`GenericArgumentMaps`].
#[verifier::ext_equal]
pub struct ArgumentsModel {
    pub types: Map<Seq<char>, TyModel>,
    pub values: Map<Seq<char>, CtValueModel>,
}

impl View for GenericArgumentMaps {
    type V = ArgumentsModel;

    open spec fn view(&self) -> ArgumentsModel {
        ArgumentsModel { types: types_view(self.types@), values: values_view(self.values@) }
    }
}

/// Recording one argument. Origins erase from the runtime ABI and contribute no
/// entry; a value stands for a variadic type parameter too.
pub open spec fn argument_step(
    decl: ParamDeclModel,
    arg: TyArgModel,
    m: ArgumentsModel,
) -> Result<ArgumentsModel, Seq<char>> {
    let name = without_stars(decl_name(decl));
    match (decl, arg) {
        (_, TyArgModel::Origin(_)) => Ok(m),
        (
            ParamDeclModel::Type { .. },
            TyArgModel::Ty(ty),
        ) => Ok(ArgumentsModel { types: m.types.insert(name, ty), ..m }),
        (ParamDeclModel::Value { .. }, TyArgModel::Val(value)) => Ok(
            ArgumentsModel { values: m.values.insert(name, value), ..m },
        ),
        (ParamDeclModel::Type { variadic, .. }, TyArgModel::Val(value)) => if variadic {
            Ok(ArgumentsModel { values: m.values.insert(name, value), ..m })
        } else {
            Err("type parameter '"@ + decl_name(decl) + "' retains a value argument"@)
        },
        (ParamDeclModel::Value { .. }, TyArgModel::Ty(_)) => Err(
            "value parameter '"@ + decl_name(decl) + "' retains a type argument"@,
        ),
    }
}

/// Recording the first `n` arguments, up to the first error.
pub open spec fn argument_maps(
    decls: Seq<ParamDeclModel>,
    args: Seq<TyArgModel>,
    n: nat,
) -> Result<ArgumentsModel, Seq<char>>
    decreases n,
{
    if n == 0 {
        Ok(ArgumentsModel { types: Map::empty(), values: Map::empty() })
    } else {
        match argument_maps(decls, args, (n - 1) as nat) {
            Err(e) => Err(e),
            Ok(m) => argument_step(decls[n - 1], args[n - 1], m),
        }
    }
}

/// The shorter of two lengths.
pub open spec fn shorter(a: nat, b: nat) -> nat {
    if a < b { a } else { b }
}

proof fn lemma_argument_maps_error(decls: Seq<ParamDeclModel>, args: Seq<TyArgModel>, n: nat, m: nat)
    requires
        n <= m,
        argument_maps(decls, args, n) is Err,
    ensures
        argument_maps(decls, args, m) == argument_maps(decls, args, n),
    decreases m,
{
    if n < m {
        lemma_argument_maps_error(decls, args, n, (m - 1) as nat);
    }
}

/// The generic arguments by parameter name.
pub fn generic_argument_maps(
    declarations: &Vec<ParamDecl>,
    arguments: &Vec<TyArg>,
) -> (r: Result<GenericArgumentMaps, String>)
    ensures
        ({
            let n = shorter(declarations@.len(), arguments@.len());
            let wanted = argument_maps(param_decls_view(*declarations), ty_args_view(*arguments), n);
            match r {
                Ok(m) => wanted == Ok::<ArgumentsModel, Seq<char>>(m@),
                Err(e) => wanted == Err::<ArgumentsModel, Seq<char>>(e@),
            }
        }),
{
    let ghost (decls, args) = (param_decls_view(*declarations), ty_args_view(*arguments));
    let mut maps: GenericArgumentMaps = GenericArgumentMaps { types: NameMap::new(), values: NameMap::new() };
    assert(maps@ =~~= ArgumentsModel { types: Map::empty(), values: Map::empty() });
    let n: usize = if declarations.len() < arguments.len() { declarations.len() } else { arguments.len() };
    for i in 0..n
        invariant
            decls == param_decls_view(*declarations),
            args == ty_args_view(*arguments),
            n == shorter(declarations@.len(), arguments@.len()),
            argument_maps(decls, args, i as nat) == Ok::<ArgumentsModel, Seq<char>>(maps@),
    {
        let decl: &ParamDecl = &declarations[i];
        assert(decls[i as int] == decl@);
        assert(args[i as int] == arguments@[i as int]@);
        let name: String = trim_stars(decl.name());
        let ghost before = maps;
        let mut failure: Option<String> = None;
        match (decl, &arguments[i]) {
            (_, TyArg::Origin(_)) => {},
            (ParamDecl::Type { .. }, TyArg::Ty(ty)) => {
                maps.types.insert(name, ty.copy());
                assert(types_view(maps.types@) =~= types_view(before.types@).insert(name@, ty@));
            },
            (ParamDecl::Value { .. }, TyArg::Val(value)) => {
                maps.values.insert(name, value.copy());
                assert(values_view(maps.values@) =~= values_view(before.values@).insert(name@, value@));
            },
            (ParamDecl::Type { variadic, .. }, TyArg::Val(value)) => {
                if *variadic {
                    maps.values.insert(name, value.copy());
                    assert(values_view(maps.values@) =~= values_view(before.values@).insert(name@, value@));
                } else {
                    failure = Some(cat3("type parameter '", decl.name(), "' retains a value argument"));
                }
            },
            (ParamDecl::Value { .. }, TyArg::Ty(_)) => {
                failure = Some(cat3("value parameter '", decl.name(), "' retains a type argument"));
            },
        }
        if let Some(e) = failure {
            proof {
                assert(argument_maps(decls, args, (i + 1) as nat) == Err::<ArgumentsModel, Seq<char>>(e@));
                lemma_argument_maps_error(decls, args, (i + 1) as nat, n as nat);
            }
            return Err(e);
        }
        assert(argument_maps(decls, args, (i + 1) as nat) == Ok::<ArgumentsModel, Seq<char>>(maps@));
    }
    Ok(maps)
}

/// The executable callable shape that a generic contract has at given arguments.
#[verifier::opaque]
pub open spec fn inst_contract<C: Checker>(
    c: C,
    contract: TyModel,
    arguments: Seq<TyArgModel>,
) -> Result<TyModel, Seq<char>> {
    match contract {
        TyModel::GenericFunc {
            environment,
            decls,
            params,
            names,
            ret,
            required,
            variadic,
            kw_variadic,
            positional_only,
            keyword_only,
            raises,
            error,
            conventions,
            ref_params,
            ref_return,
            transfers,
        } => if decls.len() != arguments.len() {
            Err(
                dec(arguments.len()) + " retained argument(s) for "@ + dec(decls.len()) + " declaration(s)"@,
            )
        } else {
            match argument_maps(decls, arguments, decls.len()) {
                Err(e) => Err(e),
                Ok(m) => {
                    let plain = TyModel::Func {
                        environment,
                        params,
                        names,
                        ret,
                        required,
                        variadic,
                        kw_variadic,
                        positional_only,
                        keyword_only,
                        raises,
                        error,
                        conventions,
                        ref_params,
                        ref_return,
                        transfers,
                    };
                    match inst_ty(plain, m.types, m.values, Seq::empty()) {
                        Err(e) => Err(e),
                        Ok(ty) => match c.scope_error(ty) {
                            Some(e) => Err(e),
                            None => Ok(ty),
                        },
                    }
                },
            }
        },
        _ => Err("retained contract is not generic"@),
    }
}

/// Rebuilds the executable callable shape from the symbolic generic contract.
/// `arguments` is the retained declaration-order witness.
pub fn instantiate_generic_callable_contract<C: Checker>(
    c: &C,
    contract: &Ty,
    arguments: &Vec<TyArg>,
) -> (r: Result<Ty, String>)
    ensures
        inst_view(r) == inst_contract(*c, contract@, ty_args_view(*arguments)),
{
    proof {
        reveal(inst_contract);
    }
    match contract {
        Ty::GenericFunc {
            environment,
            decls,
            params,
            names,
            ret,
            required,
            variadic,
            kw_variadic,
            positional_only,
            keyword_only,
            raises,
            error,
            conventions,
            ref_params,
            ref_return,
            transfers,
        } => {
            assert(param_decls_view(*decls).len() == decls@.len());
            assert(ty_args_view(*arguments).len() == arguments@.len());
            if decls.len() != arguments.len() {
                return Err(
                    cat4(
                        &dec_text_usize(arguments.len()),
                        " retained argument(s) for ",
                        &dec_text_usize(decls.len()),
                        " declaration(s)",
                    ),
                );
            }
            let maps: GenericArgumentMaps = match generic_argument_maps(decls, arguments) {
                Ok(m) => m,
                Err(e) => return Err(e),
            };
            let plain: Ty = Ty::Func {
                environment: environment.copy(),
                params: copy_tys(params),
                names: copy_strings(names),
                ret: Box::new(ret.copy()),
                required: copy_bools(required),
                variadic: copy_opt_boxed_ty(variadic),
                kw_variadic: copy_opt_boxed_ty(kw_variadic),
                positional_only: *positional_only,
                keyword_only: *keyword_only,
                raises: *raises,
                error: copy_opt_boxed_ty(error),
                conventions: copy_opt_arg_conventions(conventions),
                ref_params: copy_opt_ref_sigs(ref_params),
                ref_return: copy_opt_boxed_ref_sig(ref_return),
                transfers: copy_usizes(transfers),
            };
            let none: Vec<String> = Vec::new();
            assert(strings_view(none) =~= Seq::<Seq<char>>::empty());
            let ty: Ty = match instantiate_checked_type(&plain, &maps.types, &maps.values, &none) {
                Ok(t) => t,
                Err(e) => return Err(e),
            };
            match c.validate_dependent_bindings(&ty) {
                Ok(()) => Ok(ty),
                Err(e) => Err(e),
            }
        },
        _ => Err("retained contract is not generic".to_owned()),
    }
}

} // verus!
