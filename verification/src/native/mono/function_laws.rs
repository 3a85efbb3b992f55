//! What an instance of a function promises, and how a call's arguments find their
//! parameters.

use crate::ct::CtValueModel;
use crate::mir::{
    MirFunctionDeclarationModel, MirFunctionModel, MirInstrModel, MirProgramModel,
    MirStructDeclarationModel, Reg,
};
use crate::mir::verify::places::field_of;
use crate::native::mono::MonoErrorModel;
use crate::native::mono::bindings::BindingsModel;
use crate::native::mono::facts::const_value;
use crate::native::mono::function::{
    carried_types, concreteness, first_symbolic, holds_generic, subst_declaration, subst_function,
    survives, value_constant, value_slot_ty,
};
use crate::native::mono::requests::{parameter_constant, reified, value_param_position};
use crate::native::mono::rewrite::{subst_opt_ty, subst_tys, ty_with};
use crate::native::mono::rules::{
    ArgSlot, body_of, direct_slot, facts_of, keyword_at, positional_params, struct_template,
};
use crate::native::mono::specialize::attributed;
use crate::native::mono::subst::{subst_results, subst_ty};
use crate::native::mono::unify::symbolic;
use crate::outcome::collect;
use crate::symbol::template_of;
use crate::table::table_get;
use crate::types::{ParamDeclModel, TyArgModel, TyModel, decl_name};
use vstd::prelude::*;

verus! {

proof fn lemma_collected_at<T, E>(results: Seq<Result<T, E>>, i: int)
    requires
        collect(results) is Ok,
        0 <= i < results.len(),
    ensures
        results[i] is Ok,
        collect(results)->Ok_0.len() == results.len(),
        collect(results)->Ok_0[i] == results[i]->Ok_0,
    decreases results.len(),
{
    let shorter = results.drop_last();
    assert(collect(shorter) is Ok);
    if shorter.len() > 0 {
        lemma_collected_at(shorter, if i < shorter.len() { i } else { 0 });
    }
}

proof fn lemma_types(tys: Seq<TyModel>, b: BindingsModel)
    requires
        subst_tys(tys, b) is Ok,
    ensures
        subst_tys(tys, b)->Ok_0.len() == tys.len(),
        forall|i: int|
            0 <= i < tys.len() ==> subst_ty(#[trigger] tys[i], b) == Ok::<TyModel, MonoErrorModel>(
                subst_tys(tys, b)->Ok_0[i],
            ),
{
    reveal(subst_tys);
    let results = subst_results(tys, b);
    if tys.len() > 0 {
        lemma_collected_at(results, 0);
    }
    assert forall|i: int| 0 <= i < tys.len() implies subst_ty(#[trigger] tys[i], b) == Ok::<TyModel, MonoErrorModel>(
        subst_tys(tys, b)->Ok_0[i],
    ) by {
        lemma_collected_at(results, i);
        assert(results[i] == subst_ty(tys[i], b));
    }
}

/// An instance of a function has its parameters, its result and its error with their
/// types substituted; its names, registers and conventions are the template's.
pub proof fn law_function_substituted(f: MirFunctionModel, b: BindingsModel)
    requires
        subst_function(f, b) is Ok,
    ensures
        ({
            let g = subst_function(f, b)->Ok_0;
            &&& g.n_params == f.n_params && g.n_regs == f.n_regs && g.n_vars == f.n_vars
            &&& g.var_names == f.var_names && g.raises == f.raises && g.ref_params == f.ref_params
            &&& g.returns_reference == f.returns_reference
            &&& g.blocks.len() == f.blocks.len()
            &&& g.param_types.len() == f.param_types.len()
            &&& forall|i: int|
                0 <= i < f.param_types.len() ==> subst_ty(#[trigger] f.param_types[i], b) == Ok::<
                    TyModel,
                    MonoErrorModel,
                >(g.param_types[i])
            &&& f.ret_ty is Some ==> g.ret_ty is Some && subst_ty(f.ret_ty->Some_0, b) == Ok::<TyModel, MonoErrorModel>(
                g.ret_ty->Some_0,
            )
            &&& f.error_ty is Some ==> g.error_ty is Some && subst_ty(f.error_ty->Some_0, b) == Ok::<
                TyModel,
                MonoErrorModel,
            >(g.error_ty->Some_0)
            &&& f.ret_ty is None ==> g.ret_ty is None
        }),
{
    reveal(subst_opt_ty);
    reveal(ty_with);
    lemma_types(f.param_types, b);
    let read = crate::native::mono::function::reads_blocks(f.blocks, f.var_names, f.var_tys, b);
    assert(read is Ok);
    let results = crate::native::mono::function::reads_block_results(f.blocks, f.var_names, f.var_tys, b);
    if f.blocks.len() > 0 {
        lemma_collected_at(results, 0);
    }
    let written = crate::native::mono::rewrite::subst_blocks(read->Ok_0, b);
    assert(written is Ok);
    let more = crate::native::mono::rewrite::subst_block_results(read->Ok_0, b);
    if read->Ok_0.len() > 0 {
        lemma_collected_at(more, 0);
    }
}

/// The declaration of an instance has every type substituted, and its variadic parameter
/// spread to the arity of the call.
pub proof fn law_declaration_substituted(d: MirFunctionDeclarationModel, b: BindingsModel)
    requires
        subst_declaration(d, b) is Ok,
    ensures
        ({
            let e = subst_declaration(d, b)->Ok_0;
            &&& e.lowered_name == d.lowered_name && e.param_names == d.param_names && e.required == d.required
                && e.raises == d.raises && e.has_receiver == d.has_receiver && e.receiver_convention
                == d.receiver_convention && e.returns_reference == d.returns_reference
            &&& subst_ty(d.ret_ty, b) == Ok::<TyModel, MonoErrorModel>(e.ret_ty)
            &&& e.param_types.len() == d.param_types.len()
            &&& forall|i: int|
                0 <= i < d.param_types.len() ==> subst_ty(#[trigger] d.param_types[i], b) == Ok::<
                    TyModel,
                    MonoErrorModel,
                >(e.param_types[i])
            &&& d.kw_variadic is Some ==> e.kw_variadic is Some && subst_ty(d.kw_variadic->Some_0, b) == Ok::<
                TyModel,
                MonoErrorModel,
            >(e.kw_variadic->Some_0)
            &&& d.variadic is None ==> e.variadic is None
            &&& d.variadic is Some && b.variadic_arity is None ==> e.variadic is Some && subst_ty(d.variadic->Some_0, b)
                == Ok::<TyModel, MonoErrorModel>(e.variadic->Some_0)
            &&& d.variadic is Some && b.variadic_arity is Some && !(subst_ty(d.variadic->Some_0, b)->Ok_0 is RuntimePack
                || subst_ty(d.variadic->Some_0, b)->Ok_0 is Tuple) ==> (e.variadic matches Some(TyModel::RuntimePack(v))
                && v.len() == b.variadic_arity->Some_0 && forall|i: int|
                0 <= i < v.len() ==> #[trigger] v[i] == subst_ty(d.variadic->Some_0, b)->Ok_0)
        }),
{
    reveal(subst_opt_ty);
    reveal(ty_with);
    lemma_types(d.param_types, b);
}

/// An instance passes exactly where nothing that it carries is unsolved.
pub proof fn law_concreteness(name: Seq<char>, f: MirFunctionModel)
    ensures
        concreteness(name, f) is Ok <==> forall|i: int|
            0 <= i < carried_types(f).len() ==> !symbolic(#[trigger] carried_types(f)[i]),
{
    lemma_first_symbolic(carried_types(f));
}

proof fn lemma_first_symbolic(tys: Seq<TyModel>)
    ensures
        first_symbolic(tys) is None <==> forall|i: int| 0 <= i < tys.len() ==> !symbolic(#[trigger] tys[i]),
    decreases tys.len(),
{
    if tys.len() > 0 {
        let rest = tys.skip(1);
        lemma_first_symbolic(rest);
        assert forall|i: int| 0 <= i < rest.len() implies rest[i] == tys[i + 1] by {}
        if first_symbolic(tys) is None {
            assert forall|i: int| 0 <= i < tys.len() implies !symbolic(#[trigger] tys[i]) by {
                if i > 0 {
                    assert(!symbolic(rest[i - 1]));
                }
            }
        }
    }
}

/// A parameter takes the argument at its own position, where there is one; else the
/// keyword argument of its name; else its default. It is never given twice, nor left out
/// without a default.
pub proof fn law_argument_slots(
    d: MirFunctionDeclarationModel,
    positional: nat,
    keywords: Seq<(Seq<char>, Reg)>,
    i: int,
)
    requires
        0 <= i < d.param_names.len() <= usize::MAX,
        d.positional_only is None,
        d.keyword_only is None,
        keywords.len() <= usize::MAX,
    ensures
        ({
            let s = direct_slot(d, positional, keywords, i);
            let named = exists|k: int| 0 <= k < keywords.len() && (#[trigger] keywords[k]).0 == d.param_names[i];
            &&& i < positional && !named ==> s == Ok::<ArgSlot, Seq<char>>(ArgSlot::Positional(i as usize))
            &&& i < positional && named ==> s is Err
            &&& i >= positional && named ==> (s matches Ok(ArgSlot::Keyword(k)) && k < keywords.len()
                && keywords[k as int].0
                == d.param_names[i])
            &&& i >= positional && !named && i < d.required.len() && !d.required[i] ==> s == Ok::<ArgSlot, Seq<char>>(
                ArgSlot::Default,
            )
            &&& i >= positional && !named && (i >= d.required.len() || d.required[i]) ==> s is Err
        }),
{
    lemma_keyword_at(keywords, d.param_names[i], 0);
}

proof fn lemma_keyword_at(keywords: Seq<(Seq<char>, Reg)>, name: Seq<char>, from: int)
    requires
        0 <= from <= keywords.len() <= usize::MAX,
    ensures
        keyword_at(keywords, name, from) matches Some(k) ==> from <= k < keywords.len() && keywords[k as int].0 == name,
        keyword_at(keywords, name, from) is None <==> forall|k: int|
            from <= k < keywords.len() ==> (#[trigger] keywords[k]).0 != name,
    decreases keywords.len() - from,
{
    if from < keywords.len() && keywords[from].0 != name {
        lemma_keyword_at(keywords, name, from + 1);
    }
}

/// Only the parameters ahead of the keyword marker are passed by position.
pub proof fn law_positional_params(d: MirFunctionDeclarationModel)
    ensures
        d.keyword_only is None ==> positional_params(d) == d.param_names.len(),
        d.keyword_only is Some ==> positional_params(d) <= d.keyword_only->Some_0 && positional_params(d)
            <= d.param_names.len() && (positional_params(d) == d.keyword_only->Some_0 || positional_params(d)
            == d.param_names.len()),
{
}

/// A body, a declaration and a struct are found by their names, the last one where there
/// are several.
pub proof fn law_lookups(
    functions: Seq<(Seq<char>, MirFunctionModel)>,
    f: MirFunctionModel,
    declarations: Seq<MirFunctionDeclarationModel>,
    d: MirFunctionDeclarationModel,
    structs: Seq<MirStructDeclarationModel>,
    s: MirStructDeclarationModel,
    name: Seq<char>,
    other: Seq<char>,
)
    ensures
        body_of(functions.push((name, f)), name) == Some(f),
        other != name ==> body_of(functions.push((name, f)), other) == body_of(functions, other),
        body_of(Seq::empty(), name) is None,
        facts_of(declarations.push(d), d.lowered_name) == Some(d),
        other != d.lowered_name ==> facts_of(declarations.push(d), other) == facts_of(declarations, other),
        facts_of(Seq::empty(), name) is None,
        struct_template(structs.push(s), s.name) == Some(s),
        other != s.name ==> struct_template(structs.push(s), other) == struct_template(structs, other),
        struct_template(Seq::empty(), name) is None,
{
    assert(functions.push((name, f)).drop_last() =~= functions);
    assert(declarations.push(d).drop_last() =~= declarations);
    assert(structs.push(s).drop_last() =~= structs);
}

/// A compile-time value that becomes a constant of an instance is read back from that
/// constant as the same value.
pub proof fn law_constants_round_trip(
    value: CtValueModel,
    name: Seq<char>,
    ty: Option<TyModel>,
    b: BindingsModel,
)
    ensures
        value is Int || value is Bool ==> reified(value) is Some && const_value(reified(value)->Some_0) == Some(value),
        value is Str || value is Param ==> reified(value) is None,
        !b.callables.dom().contains(name) && (b.values[name] is Int || b.values[name] is Bool) ==> value_constant(
            name,
            ty,
            b,
        ) is Ok && const_value(value_constant(name, ty, b)->Ok_0) == Some(b.values[name]),
        b.callables.dom().contains(name) ==> value_constant(name, ty, b) is Ok && const_value(
            value_constant(name, ty, b)->Ok_0,
        ) == Some(CtValueModel::Str(b.callables[name])),
        value_slot_ty(value) == match value {
            CtValueModel::Int(_) => Some(TyModel::Int),
            CtValueModel::Bool(_) => Some(TyModel::Bool),
            _ => None,
        },
{
}

/// Reading a value parameter of a struct gives the argument at its position; a field of
/// that name comes first.
pub proof fn law_parameter_constant(
    program: MirProgramModel,
    name: Seq<char>,
    args: Seq<TyArgModel>,
    field: Seq<char>,
    d: MirStructDeclarationModel,
    i: int,
)
    requires
        struct_template(program.declarations.structs, template_of(name)) == Some(d),
        value_param_position(d.param_decls, field, 0) == Some(i),
        0 <= i < args.len(),
        args[i] is Val,
    ensures
        field_of(d.fields, field) is Some ==> parameter_constant(program, TyModel::Struct(name, args), field) is None,
        field_of(d.fields, field) is None
            ==> parameter_constant(program, TyModel::Struct(name, args), field) == reified(
            args[i]->Val_0,
        ),
{
    reveal(parameter_constant);
}

/// A value parameter is found by its name, at its own position.
pub proof fn law_value_param_position(decls: Seq<ParamDeclModel>, name: Seq<char>, from: int)
    requires
        0 <= from <= decls.len(),
    ensures
        value_param_position(decls, name, from) matches Some(i) ==> from <= i < decls.len()
            && decls[i] is Value && decl_name(
            decls[i],
        ) == name,
        value_param_position(decls, name, from) is None ==> forall|i: int|
            from <= i < decls.len() ==> !((#[trigger] decls[i]) is Value && decl_name(decls[i]) == name),
    decreases decls.len() - from,
{
    if from < decls.len() && !(decls[from] is Value && decl_name(decls[from]) == name) {
        law_value_param_position(decls, name, from + 1);
    }
}

/// An instruction is dropped from an instance only where what it defines holds a generic
/// callable.
pub proof fn law_surviving_instructions(x: MirInstrModel, regs: Seq<(u32, TyModel)>, vars: Seq<(u32, TyModel)>)
    ensures
        x is Call || x is Store || x is BinOp || x is MethodCall || x is Try ==> survives(x, regs, vars),
        x is Const ==> (survives(x, regs, vars) <==> !holds_generic(regs, x->Const_dest.0)),
        x is UseVar ==> (survives(x, regs, vars) <==> !holds_generic(regs, x->UseVar_dest.0)),
        x is DefVar ==> (survives(x, regs, vars) <==> !holds_generic(vars, x->DefVar_var)),
        forall|key: u32| #[trigger]
            holds_generic(regs, key) <==> table_get(regs, key) is Some && table_get(regs, key)->Some_0 is GenericFunc,
{
}

/// A failure keeps the function that it names, and otherwise names the template.
pub proof fn law_attributed(e: MonoErrorModel, template: Seq<char>)
    ensures
        attributed(e, template).construct == e.construct,
        e.function is Some ==> attributed(e, template) == e,
        e.function is None ==> attributed(e, template).function == Some(template),
{
}

} // verus!
