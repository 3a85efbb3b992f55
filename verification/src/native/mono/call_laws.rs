//! What inferring a call promises: every parameter is solved, once, by what the call
//! states, what it passes, what it returns, or what the declaration defaults to.

use crate::ct::CtValueModel;
use crate::literal::literal_value;
use crate::mir::{
    ConstModel, MirFunctionDeclarationModel, MirFunctionModel, MirInstrModel, MirParamArgModel,
    MirProgramModel, Reg,
};
use crate::native::mono::MonoErrorModel;
use crate::native::mono::bindings::BindingsModel;
use crate::native::mono::facts::{
    Walk, blocks_definition, const_value, covered_prefix, decl_position, declared_argument,
    declared_arguments, default_step, defaults, explicit_step, register_value,
};
use crate::native::mono::infer::{
    CallModel, FactsModel, anchored_by_pattern, anchored_by_receiver, argument_pattern,
    argument_unified, arguments_solved, call_receiver, call_result, inferred_call, matched_call,
    open_pack, own_arguments, pack_solved, result_solved, retained_callable, slot_reg, slot_solved,
    slots_solved, stated_solved, without_first,
};
use crate::native::mono::instances::{
    GraphModel, InstanceKeyModel, enqueued, known_symbol, owner_instance, symbol_taken,
};
use crate::native::mono::laws::{
    becomes, concrete, keeps, law_parameter_takes_type, law_parameter_takes_value,
    law_solution_fits, law_solving_keeps_solutions, law_substitution_needs_solutions, mentions,
    solutions, stripped,
};
use crate::native::mono::rules::{ArgSlot, CallRules, body_of, facts_of};
use crate::native::mono::subst::{ct_solution, subst_ty};
use crate::native::mono::unify::{
    all_equivalent, bind_args, bind_ct, bind_decl, bind_first_args, bind_ty, equal_modulo_origins,
    equivalent, equivalent_arg, equivalent_args, literal_ty, peeled, unify_result_ty,
};
use crate::origin::RefTyModel;
use crate::outcome::{collect, lemma_collect_ok};
use crate::symbol::InstanceArgModel;
use crate::table::table_get;
use crate::types::{ParamDeclModel, TyArgModel, TyModel, decl_name};
use vstd::prelude::*;

verus! {

/// An argument of a runtime type solves every type parameter of the parameter it is
/// passed to, and takes back no solution.
pub proof fn law_argument_solves(declared: TyModel, actual: TyModel, b: BindingsModel, name: Seq<char>)
    requires
        argument_unified(declared, actual, b).error is None,
        concrete(actual),
        mentions(declared, name),
    ensures
        argument_unified(declared, actual, b).bindings.types.dom().contains(name),
        keeps(b, argument_unified(declared, actual, b).bindings),
{
    let pattern = argument_pattern(declared, b);
    law_solving_keeps_solutions(pattern, actual, b);
    if subst_ty(declared, b) is Ok {
        law_substitution_needs_solutions(declared, name, b);
    } else {
        assert(mentions_any(declared));
        lemma_unsolved_is_symbolic(declared, b);
        law_solution_fits(declared, actual, b);
    }
}

/// A runtime type needs no solution, so what cannot be substituted is unsolved.
proof fn lemma_unsolved_is_symbolic(declared: TyModel, b: BindingsModel)
    ensures
        mentions_any(declared) ==> crate::native::mono::unify::symbolic(declared),
{
    if mentions_any(declared) {
        let name = choose|name: Seq<char>| mentions(declared, name);
        crate::native::mono::laws::law_symbolic_types(declared, name);
    }
}

/// Whether a type mentions some type parameter.
pub open spec fn mentions_any(ty: TyModel) -> bool {
    exists|name: Seq<char>| mentions(ty, name)
}

/// The result of a call solves the declared result behind the references of both, unless
/// the parameter already stands for a reference to it.
pub proof fn law_result_solves(pattern: TyModel, actual: TyModel, b: BindingsModel)
    requires
        unify_result_ty(pattern, actual, b).error is None,
        concrete(peeled(actual)),
    ensures
        ({
            let s = unify_result_ty(pattern, actual, b);
            ||| becomes(peeled(pattern), s.bindings, peeled(actual))
            ||| peeled(pattern) is Param && b.types.dom().contains(peeled(pattern)->Param_name)
                && b.types[peeled(pattern)->Param_name] is Ref && stripped(
                *b.types[peeled(pattern)->Param_name]->Ref_0.referent,
            ) == stripped(peeled(actual)) && s.bindings == b
        }),
        keeps(b, unify_result_ty(pattern, actual, b).bindings),
{
    let (p, a) = (peeled(pattern), peeled(actual));
    law_solving_keeps_solutions(p, a, b);
    match p {
        TyModel::Param { name, .. } => {
            if b.types.dom().contains(name) && b.types[name] is Ref && equal_modulo_origins(
                *b.types[name]->Ref_0.referent,
                a,
            ) {
                crate::native::mono::laws::law_equal_without_origins(*b.types[name]->Ref_0.referent, a);
            } else {
                law_solution_fits(p, a, b);
            }
        },
        _ => law_solution_fits(p, a, b),
    }
}

/// Peeling takes off every reference and nothing else.
pub proof fn law_peeled(ty: TyModel, r: RefTyModel)
    ensures
        !(peeled(ty) is Ref),
        !(ty is Ref) ==> peeled(ty) == ty,
        peeled(TyModel::Ref(r)) == peeled(*r.referent),
    decreases ty,
{
    if ty is Ref {
        law_peeled(*ty->Ref_0.referent, r);
    }
}

proof fn lemma_bind_keeps(decls: Seq<ParamDeclModel>, args: Seq<TyArgModel>, n: nat, m: nat, b: BindingsModel)
    requires
        n <= m <= decls.len(),
        m <= args.len(),
        bind_first_args(decls, args, m, b).error is None,
    ensures
        bind_first_args(decls, args, n, b).error is None,
        keeps(bind_first_args(decls, args, n, b).bindings, bind_first_args(decls, args, m, b).bindings),
    decreases m,
{
    if n < m {
        lemma_bind_keeps(decls, args, n, (m - 1) as nat, b);
        let (x, y) = (bind_first_args(decls, args, (m - 1) as nat, b), bind_first_args(decls, args, m, b));
        reveal(bind_ty);
        reveal(bind_ct);
        assert(keeps(x.bindings, y.bindings));
        lemma_keeps_both(bind_first_args(decls, args, n, b).bindings, x.bindings, y.bindings);
    }
}

proof fn lemma_keeps_both(a: BindingsModel, b: BindingsModel, c: BindingsModel)
    requires
        keeps(a, b),
        keeps(b, c),
    ensures
        keeps(a, c),
{
    assert forall|n: Seq<char>| #[trigger] a.types.dom().contains(n) implies c.types.dom().contains(n) && (literal_ty(
        a.types[n],
    ) || c.types[n] == a.types[n]) by {
        assert(b.types.dom().contains(n));
    }
    assert forall|n: Seq<char>| #[trigger] a.values.dom().contains(n) implies c.values.dom().contains(n) && c.values[n]
        == a.values[n] by {
        assert(b.values.dom().contains(n));
    }
    assert forall|n: Seq<char>| #[trigger] a.associated.dom().contains(n) implies c.associated.dom().contains(n)
        && c.associated[n] == a.associated[n] by {
        assert(b.associated.dom().contains(n));
    }
}

/// Application arguments bind the parameters in order: a runtime type to a type
/// parameter, up to origins, a constant to a value parameter, and never one to the other.
pub proof fn law_application_binds(decls: Seq<ParamDeclModel>, args: Seq<TyArgModel>, b: BindingsModel, i: int)
    requires
        bind_args(decls, args, b).error is None,
        0 <= i < decls.len(),
        i < args.len(),
    ensures
        ({
            let s = bind_args(decls, args, b).bindings;
            &&& keeps(b, s)
            &&& decls[i] is Type && args[i] is Ty && concrete(args[i]->Ty_0) ==> s.types.dom().contains(
                decls[i]->Type_name,
            ) && stripped(s.types[decls[i]->Type_name]) == stripped(args[i]->Ty_0)
            &&& decls[i] is Value && args[i] is Val ==> s.values.dom().contains(decls[i]->Value_name)
                && s.values[decls[i]->Value_name] == args[i]->Val_0
            &&& args[i] is Ty ==> decls[i] is Type
            &&& args[i] is Val ==> decls[i] is Value
        }),
{
    let n = if decls.len() < args.len() { decls.len() } else { args.len() };
    lemma_bind_keeps(decls, args, 0, n, b);
    lemma_bind_keeps(decls, args, (i + 1) as nat, n, b);
    let (x, y) = (bind_first_args(decls, args, i as nat, b), bind_first_args(decls, args, (i + 1) as nat, b));
    assert(x.error is None);
    assert(bind_first_args(decls, args, 0, b).bindings == b);
    let s = bind_args(decls, args, b).bindings;
    assert(s == bind_first_args(decls, args, n, b).bindings);
    assert(y == bind_decl(decls[i], args[i], x.bindings));
    match (decls[i], args[i]) {
        (ParamDeclModel::Type { name, .. }, TyArgModel::Ty(ty)) => {
            law_parameter_takes_type(name, ty, x.bindings);
            reveal(bind_ty);
            if concrete(ty) {
                crate::native::mono::laws::law_canonical_callables(ty);
                assert(y.bindings.types.dom().contains(name));
                assert(stripped(y.bindings.types[name]) == stripped(ty));
                lemma_stripped_literal(ty, y.bindings.types[name]);
                assert(s.types[name] == y.bindings.types[name]);
            }
        },
        (ParamDeclModel::Value { name, .. }, TyArgModel::Val(value)) => {
            law_parameter_takes_value(name, value, x.bindings);
            assert(y.bindings.values.dom().contains(name));
        },
        _ => {},
    }
}

proof fn lemma_stripped_literal(a: TyModel, b: TyModel)
    requires
        concrete(a),
    ensures
        stripped(a) == stripped(b) ==> !literal_ty(b),
{
}

/// The arguments of an instance are the solutions of its declared parameters, in order;
/// there are none while one of the parameters lacks a solution.
pub proof fn law_instance_arguments(decls: Seq<ParamDeclModel>, b: BindingsModel, target: Seq<char>, i: int)
    requires
        declared_arguments(decls, b, target) is Ok,
        0 <= i < decls.len(),
    ensures
        ({
            let args = declared_arguments(decls, b, target)->Ok_0;
            &&& args.len() == decls.len()
            &&& decls[i] is Type ==> b.types.dom().contains(decls[i]->Type_name) && args[i] == InstanceArgModel::Ty(
                b.types[decls[i]->Type_name],
            )
            &&& decls[i] is Value ==> b.values.dom().contains(decls[i]->Value_name) && args[i]
                == InstanceArgModel::Value(b.values[decls[i]->Value_name])
        }),
{
    reveal(declared_arguments);
    let results = decls.map_values(|decl: ParamDeclModel| declared_argument(decl, b, target));
    lemma_collected_all(results, i);
    assert(results[i] == declared_argument(decls[i], b, target));
}

/// Where every declared parameter has a solution, an instance has its arguments.
pub proof fn law_instance_arguments_exist(decls: Seq<ParamDeclModel>, b: BindingsModel, target: Seq<char>)
    requires
        forall|i: int|
            0 <= i < decls.len() ==> ((#[trigger] decls[i]) is Type
                ==> b.types.dom().contains(decls[i]->Type_name)) && (
            decls[i] is Value ==> b.values.dom().contains(decls[i]->Value_name)),
    ensures
        declared_arguments(decls, b, target) is Ok,
{
    reveal(declared_arguments);
    let results = decls.map_values(|decl: ParamDeclModel| declared_argument(decl, b, target));
    let values = Seq::new(decls.len(), |i: int| declared_argument(decls[i], b, target)->Ok_0);
    assert forall|i: int| 0 <= i < results.len() implies #[trigger] results[i] == Ok::<
        InstanceArgModel,
        MonoErrorModel,
    >(values[i]) by {
        assert(results[i] == declared_argument(decls[i], b, target));
        assert(decls[i] is Type || decls[i] is Value);
    }
    lemma_collect_ok(results, values);
}

proof fn lemma_collected_all<T, E>(results: Seq<Result<T, E>>, i: int)
    requires
        collect(results) is Ok,
        0 <= i < results.len(),
    ensures
        results[i] is Ok,
        collect(results)->Ok_0.len() == results.len(),
        collect(results)->Ok_0[i] == results[i]->Ok_0,
    decreases results.len(),
{
    let shorter = results.drop_last();
    assert(collect(shorter) is Ok);
    if shorter.len() > 0 {
        lemma_collected_all(shorter, if i < shorter.len() { i } else { 0 });
    }
}

/// Defaults never replace a solution; a parameter without one takes its default, and
/// then has a solution.
pub proof fn law_defaults(decls: Seq<ParamDeclModel>, n: nat, b: BindingsModel, name: Seq<char>, i: int)
    requires
        n <= decls.len(),
        defaults(decls, n, b).error is None,
    ensures
        ({
            let s = defaults(decls, n, b).bindings;
            &&& b.types.dom().contains(name) ==> s.types.dom().contains(name) && s.types[name] == b.types[name]
            &&& b.values.dom().contains(name) ==> s.values.dom().contains(name) && s.values[name] == b.values[name]
            &&& 0 <= i < n && decls[i] is Type && decls[i]->Type_default is Some ==> s.types.dom().contains(
                decls[i]->Type_name,
            )
            &&& 0 <= i < n && decls[i] is Value && decls[i]->Value_default is Some ==> s.values.dom().contains(
                decls[i]->Value_name,
            )
        }),
    decreases n,
{
    if n > 0 {
        law_defaults(decls, (n - 1) as nat, b, name, i);
    }
}

/// The default of a value parameter is evaluated with the values that are known.
pub proof fn law_value_default(decl: ParamDeclModel, b: BindingsModel)
    requires
        decl is Value,
        decl->Value_default is Some,
        !b.values.dom().contains(decl->Value_name),
    ensures
        default_step(decl, b).error is None <==> ct_solution(decl->Value_default->Some_0, b) is Ok,
        default_step(decl, b).error is None ==> default_step(decl, b).bindings.values.dom().contains(decl->Value_name)
            && default_step(decl, b).bindings.values[decl->Value_name] == ct_solution(
            decl->Value_default->Some_0,
            b,
        )->Ok_0,
{
}

/// A stated value binds the parameter that it names, or the next one in order; one that
/// is no constant is refused.
pub proof fn law_stated_value(
    decls: Seq<ParamDeclModel>,
    arg: MirParamArgModel,
    values: Map<u32, CtValueModel>,
    target: Seq<char>,
    s: Walk,
    i: int,
)
    requires
        arg.value is Some,
        0 <= i < decls.len(),
        decls[i] is Value,
        arg.name is None && s.positional == i || arg.name is Some && decl_position(decls, arg.name->Some_0) == Some(i),
        s.error is None,
    ensures
        explicit_step(decls, arg, values, target, s).error is None <==> values.dom().contains(arg.value->Some_0.0),
        values.dom().contains(arg.value->Some_0.0) ==> ({
            let after = explicit_step(decls, arg, values, target, s);
            &&& after.bindings.values == s.bindings.values.insert(decls[i]->Value_name, values[arg.value->Some_0.0])
            &&& after.bindings.types == s.bindings.types
        }),
        explicit_step(decls, arg, values, target, s).positional == s.positional + if arg.name is None {
            1int
        } else {
            0int
        },
{
}

/// A declared parameter is found by its name, the first one where there are several.
pub proof fn law_decl_position(decls: Seq<ParamDeclModel>, name: Seq<char>)
    ensures
        decl_position(decls, name) matches Some(i) ==> 0 <= i < decls.len() && decl_name(decls[i]) == name
            && forall|j: int|
            0 <= j < i ==> decl_name(#[trigger] decls[j]) != name,
        decl_position(decls, name) is None ==> forall|j: int| 0 <= j < decls.len()
            ==> decl_name(#[trigger] decls[j]) != name,
    decreases decls.len(),
{
    if decls.len() > 0 {
        let before = decls.drop_last();
        law_decl_position(before, name);
        assert forall|j: int| 0 <= j < before.len() implies before[j] == decls[j] by {}
        if decl_position(before, name) is None {
            assert forall|j: int| 0 <= j < decls.len() - 1 implies decl_name(#[trigger] decls[j]) != name by {
                assert(decl_name(before[j]) != name);
            }
        } else {
            let i = decl_position(before, name)->Some_0;
            assert forall|j: int| 0 <= j < i implies decl_name(#[trigger] decls[j]) != name by {
                assert(decl_name(before[j]) != name);
            }
        }
    }
}

/// The value of a register is that of the constant that defines it.
pub proof fn law_register_value(f: MirFunctionModel, reg: Reg, v: i64, flag: bool, name: Seq<char>)
    ensures
        blocks_definition(f.blocks, reg) == Some(MirInstrModel::Const { dest: reg, k: ConstModel::Int(v) })
            ==> register_value(f, reg) == Some(CtValueModel::Int(v)),
        blocks_definition(f.blocks, reg) == Some(MirInstrModel::Const { dest: reg, k: ConstModel::Bool(flag) })
            ==> register_value(f, reg) == Some(CtValueModel::Bool(flag)),
        blocks_definition(f.blocks, reg) == Some(MirInstrModel::Const { dest: reg, k: ConstModel::Function(name) })
            ==> register_value(f, reg) == Some(CtValueModel::Str(name)),
        blocks_definition(f.blocks, reg) is None ==> register_value(f, reg) is None,
        forall|k: ConstModel| #[trigger]
            const_value(k) matches Some(CtValueModel::Int(n)) ==> (k is Int && k->Int_0 == n) || (k is IntLiteral
                && literal_value(k->IntLiteral_0) == n),
{
}

/// Asking for an instance gives the symbol that is on record for it; a new one is
/// recorded and queued once, with its bindings, and nothing that was there changes.
pub proof fn law_enqueue_records(
    program: MirProgramModel,
    g: GraphModel,
    template: Seq<char>,
    b: BindingsModel,
    arguments: Seq<InstanceArgModel>,
)
    requires
        enqueued(program, g, template, b, arguments) is Ok,
    ensures
        ({
            let key = InstanceKeyModel { template, arguments, owner: owner_instance(b) };
            let (after, name) = enqueued(program, g, template, b, arguments)->Ok_0;
            &&& known_symbol(g.instances, key) is Some ==> after == g && known_symbol(g.instances, key) == Some(name)
            &&& known_symbol(g.instances, key) is None ==> {
                &&& after.queue.len() == g.queue.len() + 1
                &&& after.queue.last() == (key, b)
                &&& after.instances.len() == g.instances.len() + 1
                &&& after.instances.last() == (key, name)
                &&& !symbol_taken(g.instances, name)
                &&& name == template || body_of(program.functions, name) is None
                &&& arguments.len() == 0 && b.self_instance is None ==> name == template
            }
            &&& after.declarations == g.declarations && after.structs == g.structs
            &&& forall|i: int| 0 <= i < g.queue.len() ==> #[trigger] after.queue[i] == g.queue[i]
        }),
{
    reveal(enqueued);
}

/// Field types are equivalent where they are equal but for what is behind pointers:
/// every pointer is equivalent to every other, and to nothing else.
pub proof fn law_equivalent_fields(a: TyModel, b: TyModel)
    ensures
        equivalent(a, a),
        a is Pointer && b is Pointer ==> equivalent(a, b),
        a is Pointer != b is Pointer ==> !equivalent(a, b),
        !(a is Struct || a is Tuple || a is RuntimePack || a is Pointer) ==> (equivalent(a, b) <==> a == b),
        a is Struct && equivalent(a, b) ==> b is Struct && a->Struct_0 == b->Struct_0 && a->Struct_1.len()
            == b->Struct_1.len(),
        a is Tuple && b is Tuple ==> (equivalent(a, b) <==> a->Tuple_0.len() == b->Tuple_0.len() && forall|i: int|
            0 <= i < a->Tuple_0.len() ==> equivalent(#[trigger] a->Tuple_0[i], b->Tuple_0[i])),
    decreases a,
{
    match a {
        TyModel::Struct(_, args) => {
            assert forall|i: int| 0 <= i < args.len() implies equivalent_arg(#[trigger] args[i], args[i]) by {
                if let TyArgModel::Ty(t) = args[i] {
                    law_equivalent_fields(t, t);
                }
            }
            assert(equivalent_args(args, args));
            if b is Struct && equivalent(a, b) {
                assert(equivalent_args(args, b->Struct_1));
            }
        },
        TyModel::Tuple(v) => {
            assert forall|i: int| 0 <= i < v.len() implies equivalent(#[trigger] v[i], v[i]) by {
                law_equivalent_fields(v[i], v[i]);
            }
            assert(all_equivalent(v, v));
            if b is Tuple {
                assert(equivalent(a, b) == all_equivalent(v, b->Tuple_0));
            }
        },
        TyModel::RuntimePack(v) => {
            assert forall|i: int| 0 <= i < v.len() implies equivalent(#[trigger] v[i], v[i]) by {
                law_equivalent_fields(v[i], v[i]);
            }
            assert(all_equivalent(v, v));
        },
        _ => {},
    }
}

/// The parameters that a method shares with its owner are a prefix of its own, or none.
pub proof fn law_covered_prefix(
    owner: Seq<ParamDeclModel>,
    method: Seq<ParamDeclModel>,
    args: Seq<InstanceArgModel>,
)
    ensures
        covered_prefix(owner, method) == 0 || covered_prefix(owner, method) == owner.len(),
        covered_prefix(owner, owner) == owner.len(),
        covered_prefix(owner, method) <= method.len(),
        covered_prefix(owner, method) > 0 ==> forall|i: int|
            0 <= i < owner.len() ==> decl_name(#[trigger] owner[i]) == decl_name(method[i]),
        covered_prefix(owner, method) <= args.len() ==> without_first(args, covered_prefix(owner, method)).len()
            == args.len() - covered_prefix(owner, method),
        without_first(args, 0) == args,
{
    assert(args.skip(0) =~= args);
}

/// Whether every type parameter that has a solution keeps having one.
pub open spec fn stays_solved(b: BindingsModel, later: BindingsModel) -> bool {
    forall|n: Seq<char>| #[trigger] b.types.dom().contains(n) ==> later.types.dom().contains(n)
}

proof fn lemma_slots_stay(
    call: CallModel,
    facts: FactsModel,
    d: MirFunctionDeclarationModel,
    slots: Seq<ArgSlot>,
    n: nat,
    b: BindingsModel,
    j: int,
    name: Seq<char>,
)
    requires
        n <= slots.len(),
        slots_solved(call, facts, d, slots, n, b) is Ok,
    ensures
        stays_solved(b, slots_solved(call, facts, d, slots, n, b)->Ok_0.bindings),
        0 <= j < n && slot_reg(slots[j], call) is Some ==> {
            let reg = slot_reg(slots[j], call)->Some_0;
            &&& j < d.param_types.len()
            &&& table_get(call.caller.reg_types, reg.0) is Some
            &&& concrete(table_get(call.caller.reg_types, reg.0)->Some_0) && mentions(d.param_types[j], name)
                ==> slots_solved(call, facts, d, slots, n, b)->Ok_0.bindings.types.dom().contains(name)
        },
    decreases n,
{
    if n > 0 {
        lemma_slots_stay(call, facts, d, slots, (n - 1) as nat, b, j, name);
        reveal(slot_solved);
        let s = slots_solved(call, facts, d, slots, (n - 1) as nat, b)->Ok_0;
        if let Some(reg) = slot_reg(slots[n - 1], call) {
            let actual = table_get(call.caller.reg_types, reg.0)->Some_0;
            let declared = d.param_types[n - 1];
            law_solving_keeps_solutions(argument_pattern(declared, s.bindings), actual, s.bindings);
            if concrete(actual) && mentions(declared, name) {
                law_argument_solves(declared, actual, s.bindings, name);
            }
        }
    }
}

proof fn lemma_pack_stays(call: CallModel, element: TyModel, overflow: Seq<usize>, n: nat, b: BindingsModel)
    ensures
        stays_solved(b, pack_solved(call, element, overflow, n, b).bindings),
    decreases n,
{
    if n > 0 {
        lemma_pack_stays(call, element, overflow, (n - 1) as nat, b);
        let s = pack_solved(call, element, overflow, (n - 1) as nat, b);
        let reg = call.args[overflow[n - 1] as int];
        if let Some(actual) = table_get(call.caller.reg_types, reg.0) {
            law_solving_keeps_solutions(element, actual, s.bindings);
        }
    }
}

/// Inferring the call of a generic function solves it: every declared parameter has a
/// solution, every type parameter that a passed argument's parameter mentions has one, and
/// the declared result becomes the result that the call is checked to have.
#[verifier::rlimit(40)]
pub proof fn law_inferred_call<R: CallRules>(
    rules: R,
    program: MirProgramModel,
    call: CallModel,
    facts: FactsModel,
    receiver: Option<Reg>,
    dest: Reg,
    params: Seq<MirParamArgModel>,
    i: int,
    j: int,
    name: Seq<char>,
)
    requires
        inferred_call(rules, program, call, facts, receiver, dest, params) is Ok,
    ensures
        facts_of(program.declarations.functions, call.target) is Some,
        ({
            let d = facts_of(program.declarations.functions, call.target)->Some_0;
            let b = inferred_call(rules, program, call, facts, receiver, dest, params)->Ok_0.0;
            let slots = rules.call_slots(d, call.args.len(), call.kwargs);
            &&& 0 <= i < d.param_decls.len() && d.param_decls[i] is Type ==> b.types.dom().contains(
                d.param_decls[i]->Type_name,
            )
            &&& 0 <= i < d.param_decls.len() && d.param_decls[i] is Value ==> b.values.dom().contains(
                d.param_decls[i]->Value_name,
            )
            &&& slots is Ok
            &&& 0 <= j < slots->Ok_0.slots.len() && slot_reg(slots->Ok_0.slots[j], call) is Some && concrete(
                table_get(call.caller.reg_types, slot_reg(slots->Ok_0.slots[j], call)->Some_0.0)->Some_0,
            ) && mentions(d.param_types[j], name) ==> b.types.dom().contains(name)
            &&& receiver != Some(dest) && table_get(call.caller.reg_types, dest.0) is Some && concrete(
                peeled(table_get(call.caller.reg_types, dest.0)->Some_0),
            ) ==> {
                let result = peeled(table_get(call.caller.reg_types, dest.0)->Some_0);
                ||| becomes(peeled(d.ret_ty), b, result)
                ||| peeled(d.ret_ty) is Param && b.types.dom().contains(peeled(d.ret_ty)->Param_name)
                    && b.types[peeled(d.ret_ty)->Param_name] is Ref && stripped(
                    *b.types[peeled(d.ret_ty)->Param_name]->Ref_0.referent,
                ) == stripped(result)
            }
        }),
{
    reveal(inferred_call);
    reveal(matched_call);
    reveal(own_arguments);
    reveal(anchored_by_pattern);
    reveal(anchored_by_receiver);
    reveal(arguments_solved);
    let d = facts_of(program.declarations.functions, call.target)->Some_0;
    let ty = call_receiver(call, receiver)->Ok_0;
    let start = stated_solved(program, call, facts, d, ty, params)->Ok_0;
    let slots = rules.call_slots(d, call.args.len(), call.kwargs)->Ok_0;
    let whole = matched_call(
        program,
        call,
        facts,
        d,
        ty,
        call_result(call, receiver, dest),
        slots,
        start.0,
        start.1,
    );
    assert(whole is Ok);
    let s = arguments_solved(call, facts, d, slots, start.0)->Ok_0;
    let scan = slots_solved(call, facts, d, slots.slots, slots.slots.len(), start.0)->Ok_0;
    lemma_slots_stay(call, facts, d, slots.slots, slots.slots.len(), start.0, j, name);
    if let Some(element) = open_pack(d) {
        lemma_pack_stays(call, element, slots.positional_overflow, slots.positional_overflow.len(), scan.bindings);
    }
    assert(stays_solved(scan.bindings, s.bindings));
    let u = result_solved(call.owner, call.target, d.ret_ty, call_result(call, receiver, dest), s.bindings);
    let b = whole->Ok_0.0;
    assert(b.types == u.bindings.types && b.values == u.bindings.values && b.associated == u.bindings.associated
        && b.callables == u.bindings.callables);
    if let Some(result) = call_result(call, receiver, dest) {
        law_solving_keeps_solutions(peeled(d.ret_ty), peeled(result), s.bindings);
        assert(stays_solved(s.bindings, u.bindings));
        if concrete(peeled(result)) {
            law_result_solves(d.ret_ty, result, s.bindings);
            assert(solutions(b) == solutions(u.bindings));
        }
    }
    if 0 <= i < d.param_decls.len() {
        law_instance_arguments(d.param_decls, b, call.target, i);
    }
    if 0 <= j < slots.slots.len() && mentions(d.param_types[j], name) && scan.bindings.types.dom().contains(name) {
        assert(s.bindings.types.dom().contains(name));
        assert(u.bindings.types.dom().contains(name));
    }
}

/// A variadic parameter takes any number of arguments unless it is a pack of its own
/// already.
pub proof fn law_open_pack(d: MirFunctionDeclarationModel)
    ensures
        open_pack(d) is Some <==> d.variadic is Some
            && !(d.variadic->Some_0 is RuntimePack || d.variadic->Some_0 is Tuple),
        open_pack(d) is Some ==> open_pack(d) == d.variadic,
        forall|ty: TyModel| #[trigger]
            retained_callable(ty) ==> peeled(ty) is GenericFunc || (peeled(ty) is Param
                && peeled(ty)->Param_callable_bound is Some),
{
}

} // verus!
