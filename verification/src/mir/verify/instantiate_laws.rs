//! What instantiating a checked type promises.

use crate::ct::{CtErrorModel, CtExprModel, CtValueModel, ct_eval};
use crate::mir::verify::Checker;
use crate::mir::verify::instantiate::{
    ArgumentsModel, argument_maps, argument_step, inst_arg, inst_arg_results, inst_contract,
    inst_index, inst_opt, inst_results, inst_ty,
};
use crate::native::mono::laws::{all_concrete, concrete, concrete_arg};
use crate::outcome::{collect, lemma_collect_ok};
use crate::text::without_stars;
use crate::types::{ParamDeclModel, TyArgModel, TyModel, decl_name};
use vstd::prelude::*;

verus! {

/// The types of type parameters.
pub type Types = Map<Seq<char>, TyModel>;

/// The values of value parameters.
pub type Values = Map<Seq<char>, CtValueModel>;

/// What mentions no parameter is left alone by instantiation.
pub proof fn law_concrete_types_stay(ty: TyModel, types: Types, values: Values, bound: Seq<Seq<char>>)
    requires
        concrete(ty),
    ensures
        inst_ty(ty, types, values, bound) == Ok::<TyModel, Seq<char>>(ty),
    decreases ty,
{
    match ty {
        TyModel::Struct(_, args) => {
            let results = inst_arg_results(args, types, values, bound);
            assert forall|i: int| 0 <= i < results.len() implies #[trigger] results[i] == Ok::<TyArgModel, Seq<char>>(
                args[i],
            ) by {
                assert(concrete_arg(args[i]));
                assert(results[i] == inst_arg(args[i], types, values, bound));
                if let TyArgModel::Ty(t) = args[i] {
                    law_concrete_types_stay(t, types, values, bound);
                }
            }
            lemma_collect_ok(results, args);
        },
        TyModel::Tuple(v) => lemma_lists_stay(v, types, values, bound),
        TyModel::RuntimePack(v) => lemma_lists_stay(v, types, values, bound),
        TyModel::Variant(v) => lemma_lists_stay(v, types, values, bound),
        TyModel::Overload(v) => lemma_lists_stay(v, types, values, bound),
        TyModel::ComptimeList(v) => law_concrete_types_stay(*v, types, values, bound),
        TyModel::VariadicPack(v) => law_concrete_types_stay(*v, types, values, bound),
        TyModel::Pointer { element, .. } => law_concrete_types_stay(*element, types, values, bound),
        TyModel::Ref(v) => law_concrete_types_stay(*v.referent, types, values, bound),
        TyModel::Func { params, ret, variadic, kw_variadic, error, .. } => {
            lemma_lists_stay(params, types, values, bound);
            law_concrete_types_stay(*ret, types, values, bound);
            lemma_opt_stays(variadic, types, values, bound);
            lemma_opt_stays(kw_variadic, types, values, bound);
            lemma_opt_stays(error, types, values, bound);
        },
        _ => {},
    }
}

proof fn lemma_opt_stays(ty: Option<Box<TyModel>>, types: Types, values: Values, bound: Seq<Seq<char>>)
    requires
        ty is Some ==> concrete(*ty->Some_0),
    ensures
        inst_opt(ty, types, values, bound) == Ok::<Option<Box<TyModel>>, Seq<char>>(ty),
    decreases ty,
{
    if let Some(x) = ty {
        law_concrete_types_stay(*x, types, values, bound);
    }
}

proof fn lemma_lists_stay(tys: Seq<TyModel>, types: Types, values: Values, bound: Seq<Seq<char>>)
    requires
        all_concrete(tys),
    ensures
        collect(inst_results(tys, types, values, bound)) == Ok::<Seq<TyModel>, Seq<char>>(tys),
    decreases tys,
{
    let results = inst_results(tys, types, values, bound);
    assert forall|i: int| 0 <= i < results.len() implies #[trigger] results[i] == Ok::<TyModel, Seq<char>>(tys[i]) by {
        assert(concrete(tys[i]));
        law_concrete_types_stay(tys[i], types, values, bound);
    }
    lemma_collect_ok(results, tys);
}

/// A parameter becomes its argument, found by its name with or without its stars, and
/// stays where it has none; what is built of it is built of the argument.
pub proof fn law_parameter_instantiates(ty: TyModel, types: Types, values: Values, bound: Seq<Seq<char>>)
    requires
        ty is Param,
    ensures
        types.dom().contains(ty->Param_name) ==> inst_ty(ty, types, values, bound) == Ok::<TyModel, Seq<char>>(
            types[ty->Param_name],
        ),
        !types.dom().contains(ty->Param_name) && types.dom().contains(without_stars(ty->Param_name)) ==> inst_ty(
            ty,
            types,
            values,
            bound,
        ) == Ok::<TyModel, Seq<char>>(types[without_stars(ty->Param_name)]),
        !types.dom().contains(ty->Param_name) && !types.dom().contains(without_stars(ty->Param_name)) ==> inst_ty(
            ty,
            types,
            values,
            bound,
        ) == Ok::<TyModel, Seq<char>>(ty),
        inst_ty(TyModel::ComptimeList(Box::new(ty)), types, values, bound) == Ok::<TyModel, Seq<char>>(
            TyModel::ComptimeList(Box::new(inst_ty(ty, types, values, bound)->Ok_0)),
        ),
        inst_ty(TyModel::VariadicPack(Box::new(ty)), types, values, bound) == Ok::<TyModel, Seq<char>>(
            TyModel::VariadicPack(Box::new(inst_ty(ty, types, values, bound)->Ok_0)),
        ),
{
}

/// The parts of a compound type are instantiated in place: as many as before, each on
/// its own.
pub proof fn law_parts_instantiate(v: Seq<TyModel>, types: Types, values: Values, bound: Seq<Seq<char>>, i: int)
    requires
        inst_ty(TyModel::Tuple(v), types, values, bound) is Ok,
        0 <= i < v.len(),
    ensures
        inst_ty(TyModel::Tuple(v), types, values, bound)->Ok_0 matches TyModel::Tuple(w) && w.len() == v.len()
            && inst_ty(v[i], types, values, bound) == Ok::<TyModel, Seq<char>>(w[i]),
        inst_ty(TyModel::Variant(v), types, values, bound)->Ok_0 matches TyModel::Variant(w) && w.len() == v.len()
            && inst_ty(v[i], types, values, bound) == Ok::<TyModel, Seq<char>>(w[i]),
{
    let results = inst_results(v, types, values, bound);
    lemma_collected_at(results, i);
    assert(results[i] == inst_ty(v[i], types, values, bound));
}

proof fn lemma_collected_at<T, E>(results: Seq<Result<T, E>>, i: int)
    requires
        collect(results) is Ok,
        0 <= i < results.len(),
    ensures
        results[i] is Ok,
        collect(results)->Ok_0.len() == results.len(),
        collect(results)->Ok_0[i] == results[i]->Ok_0,
    decreases results.len(),
{
    let shorter = results.drop_last();
    assert(collect(shorter) is Ok);
    if shorter.len() > 0 {
        lemma_collected_at(shorter, if i < shorter.len() { i } else { 0 });
    }
}

/// A dependent index selects the element at its value, and none outside the elements.
pub proof fn law_dependent_index(
    elements: Seq<TyModel>,
    index: CtExprModel,
    values: Values,
    bound: Seq<Seq<char>>,
    v: i64,
)
    requires
        ct_eval(index, values) == Ok::<CtValueModel, CtErrorModel>(CtValueModel::Int(v)),
        v <= usize::MAX,
    ensures
        inst_index(elements, index, values, bound) is Ok <==> 0 <= v < elements.len(),
        0 <= v < elements.len() ==> inst_index(elements, index, values, bound) == Ok::<TyModel, Seq<char>>(
            elements[v as int],
        ),
{
}

/// Each argument is filed under the name of its parameter without stars: types of type
/// parameters, values of value parameters; a type is never filed for a value parameter.
pub proof fn law_arguments_filed(decl: ParamDeclModel, arg: TyArgModel, m: ArgumentsModel)
    ensures
        decl is Type && arg is Ty ==> (argument_step(decl, arg, m) matches Ok(n) && n.types == m.types.insert(
            without_stars(decl_name(decl)),
            arg->Ty_0,
        ) && n.values == m.values),
        decl is Value && arg is Val ==> (argument_step(decl, arg, m) matches Ok(n) && n.values == m.values.insert(
            without_stars(decl_name(decl)),
            arg->Val_0,
        ) && n.types == m.types),
        decl is Value && arg is Ty ==> argument_step(decl, arg, m) is Err,
        arg is Origin ==> argument_step(decl, arg, m) == Ok::<ArgumentsModel, Seq<char>>(m),
{
}

/// Only a generic contract with an argument for each parameter is instantiated, and it
/// becomes a plain one.
pub proof fn law_contract_instantiates<C: Checker>(c: C, contract: TyModel, arguments: Seq<TyArgModel>)
    requires
        inst_contract(c, contract, arguments) is Ok,
    ensures
        contract is GenericFunc,
        contract->GenericFunc_decls.len() == arguments.len(),
        inst_contract(c, contract, arguments)->Ok_0 is Func,
        c.scope_error(inst_contract(c, contract, arguments)->Ok_0) is None,
        inst_contract(c, contract, arguments)->Ok_0->Func_raises == contract->GenericFunc_raises,
        inst_contract(c, contract, arguments)->Ok_0->Func_required == contract->GenericFunc_required,
        inst_contract(c, contract, arguments)->Ok_0->Func_params.len() == contract->GenericFunc_params.len(),
{
    reveal(inst_contract);
    let m = argument_maps(contract->GenericFunc_decls, arguments, arguments.len())->Ok_0;
    let results = inst_results(contract->GenericFunc_params, m.types, m.values, Seq::empty());
    assert(collect(results) is Ok);
    if results.len() > 0 {
        lemma_collected_at(results, 0);
    }
}

} // verus!
