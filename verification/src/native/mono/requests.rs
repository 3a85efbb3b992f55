//! The instances that instructions ask for.

use crate::ct::{CtValue, CtValueModel, wrap64};
use crate::data::{opt_string_view, strings_view};
use crate::mir::{
    Const, ConstModel, MirFunction, MirFunctionDeclaration, MirFunctionDeclarationModel,
    MirFunctionModel, MirParamArg, MirParamArgModel, MirProgram, MirProgramModel, MirSubscriptCall,
    MirSubscriptCallModel, Reg, param_args_view,
};
use crate::mir::verify::found_view;
use crate::mir::verify::instantiate::shorter;
use crate::mir::verify::places::{field_declared, field_of};
use crate::mir::verify::subscripts::is_trait_dispatch;
use crate::native::mono::{MonoError, MonoErrorModel};
use crate::native::mono::bindings::{Bindings, BindingsModel};
use crate::native::mono::facts::{
    declared_arguments, id_values_view, ordered_arguments, push_sugar_arguments, sugar_args,
};
use crate::native::mono::infer::{
    Solution, base_bindings, bind_receiver, drop_first, fail_in, failure_in, fresh_bindings,
    infer_receiver_call, receiver_bound, receiver_call, solution_view, without_first,
};
use crate::native::mono::instances::{Graph, GraphModel, Step, enqueue, enqueued, names};
use crate::native::mono::rules::{
    CallRules, body_of, facts_of, find_body, find_facts, find_struct, struct_template,
};
use crate::native::mono::unify::{peel_refs, peeled};
use crate::runtime::Value;
use crate::symbol::{
    InstanceArg, InstanceArgModel, STDLIB_STRING_STRUCT, instance_args_view,
    is_stdlib_string_struct, is_string_struct, nominal_template, template_of,
};
use crate::table::{IdMap, TyTable, table_get};
use crate::text::{cat3, cat5, starts_with, str_eq};
use crate::types::{
    ParamDecl, ParamDeclModel, Ty, TyArg, TyArgModel, TyModel, decl_name, param_decls_view,
    ty_args_view, ty_text, tys_view,
};
use vstd::prelude::*;

verus! {

/// The model of a list of named types.
pub open spec fn named_types(types: Seq<(&str, Ty)>) -> Seq<(Seq<char>, TyModel)> {
    Seq::new(types.len(), |i: int| (types[i].0@, types[i].1@))
}

/// Bindings with types for the named parameters.
pub open spec fn with_types(types: Seq<(Seq<char>, TyModel)>, b: BindingsModel) -> BindingsModel
    decreases types.len(),
{
    if types.len() == 0 {
        b
    } else {
        let before = with_types(types.drop_last(), b);
        BindingsModel { types: before.types.insert(types.last().0, types.last().1), ..before }
    }
}

/// Bindings in which a type parameter without a solution stands for the builtin
/// string.
pub open spec fn string_bound(name: Seq<char>, b: BindingsModel) -> BindingsModel {
    if b.types.dom().contains(name) {
        b
    } else {
        BindingsModel { types: b.types.insert(name, TyModel::StringLiteral), ..b }
    }
}

/// The declared type parameters without a solution stand for the builtin string.
pub open spec fn declared_strings(decls: Seq<ParamDeclModel>, b: BindingsModel) -> BindingsModel
    decreases decls.len(),
{
    if decls.len() == 0 {
        b
    } else {
        let before = declared_strings(decls.drop_last(), b);
        match decls.last() {
            ParamDeclModel::Type { name, .. } => string_bound(name, before),
            _ => before,
        }
    }
}

/// The parameters that types spell and nothing declares stand for the builtin
/// string.
pub open spec fn spelled_strings(tys: Seq<TyModel>, b: BindingsModel) -> BindingsModel
    decreases tys.len(),
{
    if tys.len() == 0 {
        b
    } else {
        let before = spelled_strings(tys.drop_last(), b);
        match tys.last() {
            TyModel::Param { name, .. } => string_bound(name, before),
            _ => before,
        }
    }
}

fn bind_types(types: &Vec<(&str, Ty)>, bindings: &mut Bindings)
    ensures
        final(bindings)@ == with_types(named_types(types@), old(bindings)@),
{
    let ghost b = bindings@;
    let ghost model = named_types(types@);
    for i in 0..types.len()
        invariant
            model == named_types(types@),
            bindings@ == with_types(model.take(i as int), b),
    {
        assert(model.take(i + 1).drop_last() =~= model.take(i as int));
        bindings.set_type(types[i].0.to_owned(), types[i].1.copy());
    }
    assert(model.take(model.len() as int) =~= model);
}

fn bind_string(name: &String, bindings: &mut Bindings)
    ensures
        final(bindings)@ == string_bound(name@, old(bindings)@),
{
    if bindings.ty(name).is_none() {
        bindings.set_type(name.clone(), Ty::StringLiteral);
    }
}

fn bind_declared_strings(decls: &Vec<ParamDecl>, bindings: &mut Bindings)
    ensures
        final(bindings)@ == declared_strings(param_decls_view(*decls), old(bindings)@),
{
    let ghost b = bindings@;
    let ghost model = param_decls_view(*decls);
    for i in 0..decls.len()
        invariant
            model == param_decls_view(*decls),
            bindings@ == declared_strings(model.take(i as int), b),
    {
        assert(model.take(i + 1).drop_last() =~= model.take(i as int));
        assert(model[i as int] == decls@[i as int]@);
        if let ParamDecl::Type { name, .. } = &decls[i] {
            bind_string(name, bindings);
        }
    }
    assert(model.take(model.len() as int) =~= model);
}

fn bind_spelled_strings(tys: &Vec<Ty>, bindings: &mut Bindings)
    ensures
        final(bindings)@ == spelled_strings(tys_view(*tys), old(bindings)@),
{
    let ghost b = bindings@;
    let ghost model = tys_view(*tys);
    for i in 0..tys.len()
        invariant
            model == tys_view(*tys),
            bindings@ == spelled_strings(model.take(i as int), b),
    {
        assert(model.take(i + 1).drop_last() =~= model.take(i as int));
        assert(model[i as int] == tys@[i as int]@);
        if let Ty::Param { name, .. } = &tys[i] {
            bind_string(name, bindings);
        }
    }
    assert(model.take(model.len() as int) =~= model);
}

/// A step that gives nothing but the graph.
pub open spec fn quiet<T>(step: Step<T>) -> Step<()> {
    match step {
        Ok(s) => Ok((s.0, ())),
        Err(e) => Err(e),
    }
}

/// Whether the outcome of a step that gives nothing is the specified one.
pub open spec fn stepped(graph: Graph, r: Result<(), MonoError>, wanted: Step<()>) -> bool {
    match r {
        Ok(()) => wanted == Ok::<(GraphModel, ()), MonoErrorModel>((graph@, ())),
        Err(e) => wanted == Err::<(GraphModel, ()), MonoErrorModel>(e@),
    }
}

/// Solving a method that a lowered intrinsic calls: the receiver binds the owner's
/// parameters, and every type parameter left stands for the builtin string.
#[verifier::opaque]
pub open spec fn intrinsic_method(
    program: MirProgramModel,
    owner: Seq<char>,
    target: Seq<char>,
    declaration: MirFunctionDeclarationModel,
    receiver: TyModel,
    extra: Seq<(Seq<char>, TyModel)>,
    sugar: bool,
) -> Solution {
    match receiver_bound(program, owner, target, declaration.param_decls, receiver, fresh_bindings(program)) {
        Err(e) => Err(e),
        Ok(s) => {
            let b = spelled_strings(
                declaration.param_types,
                declared_strings(declaration.param_decls, with_types(extra, s.0)),
            );
            match declared_arguments(declaration.param_decls, b, target) {
                Err(e) => Err(e),
                Ok(args) => Ok(
                    (
                        b,
                        without_first(args, s.1) + if sugar {
                            sugar_args(declaration.param_types, declaration.param_decls, b)
                        } else {
                            Seq::empty()
                        },
                    ),
                ),
            }
        },
    }
}

fn solve_intrinsic_method(
    program: &MirProgram,
    owner: &str,
    target: &str,
    declaration: &MirFunctionDeclaration,
    receiver: &Ty,
    extra: &Vec<(&str, Ty)>,
    sugar: bool,
) -> (r: Result<(Bindings, Vec<InstanceArg>), MonoError>)
    ensures
        solution_view(r) == intrinsic_method(
            program@,
            owner@,
            target@,
            declaration@,
            receiver@,
            named_types(extra@),
            sugar,
        ),
{
    proof {
        reveal(intrinsic_method);
    }
    let mut bindings: Bindings = base_bindings(program);
    let covered: usize = match bind_receiver(
        program,
        owner,
        target,
        &declaration.param_decls,
        receiver,
        &mut bindings,
    ) {
        Ok(n) => n,
        Err(e) => return Err(e),
    };
    bind_types(extra, &mut bindings);
    bind_declared_strings(&declaration.param_decls, &mut bindings);
    bind_spelled_strings(&declaration.param_types, &mut bindings);
    let all: Vec<InstanceArg> = match ordered_arguments(&declaration.param_decls, &bindings, target) {
        Ok(args) => args,
        Err(e) => return Err(e),
    };
    let mut args: Vec<InstanceArg> = drop_first(&all, covered);
    let ghost own = instance_args_view(args);
    if sugar {
        push_sugar_arguments(declaration, &bindings, &mut args);
    } else {
        assert(own =~= own + Seq::<InstanceArgModel>::empty());
    }
    Ok((bindings, args))
}

/// Asking for a method that a lowered intrinsic calls. A receiver that is no
/// struct, or has no such method, asks for nothing.
#[verifier::opaque]
pub open spec fn method_requested<R: CallRules>(
    rules: R,
    program: MirProgramModel,
    g: GraphModel,
    owner: Seq<char>,
    receiver: TyModel,
    method: Seq<char>,
    argc: nat,
    extra: Seq<(Seq<char>, TyModel)>,
    sugar: bool,
) -> Step<()> {
    match receiver {
        TyModel::Struct(name, _) => {
            let target = rules.method_symbol(program.functions, template_of(name), method, None, argc, 0);
            match facts_of(program.declarations.functions, target) {
                Some(declaration) => if body_of(program.functions, target) is None {
                    Ok((g, ()))
                } else {
                    match intrinsic_method(program, owner, target, declaration, receiver, extra, sugar) {
                        Err(e) => Err(e),
                        Ok(s) => quiet(enqueued(program, g, target, s.0, s.1)),
                    }
                },
                None => Ok((g, ())),
            }
        },
        _ => Ok((g, ())),
    }
}

/// Asks for a method that a lowered intrinsic calls.
pub fn enqueue_nominal_method_instance<R: CallRules>(
    rules: &R,
    program: &MirProgram,
    graph: &mut Graph,
    owner: &str,
    receiver: &Ty,
    method: &str,
    argc: usize,
    extra: &Vec<(&str, Ty)>,
    sugar: bool,
) -> (r: Result<(), MonoError>)
    ensures
        stepped(
            *final(graph),
            r,
            method_requested(
                *rules,
                program@,
                old(graph)@,
                owner@,
                receiver@,
                method@,
                argc as nat,
                named_types(extra@),
                sugar,
            ),
        ),
{
    proof {
        reveal(method_requested);
    }
    if let Ty::Struct(name, _) = receiver {
        let target: String = rules.resolve_method_symbol(
            &program.functions,
            nominal_template(name),
            method,
            &None,
            argc,
            0,
        );
        if find_body(&program.functions, &target).is_none() {
            return Ok(());
        }
        if let Some(declaration) = find_facts(&program.declarations.functions, &target) {
            match solve_intrinsic_method(program, owner, &target, declaration, receiver, extra, sugar) {
                Err(e) => return Err(e),
                Ok(s) => {
                    if let Err(e) = enqueue(program, graph, &target, s.0, s.1) {
                        return Err(e);
                    }
                },
            }
        }
    }
    Ok(())
}

/// Asking for what displaying a register calls: `write_to` of a nominal struct that
/// is not the string struct, with the builtin string as its writer.
#[verifier::opaque]
pub open spec fn display_requested<R: CallRules>(
    rules: R,
    program: MirProgramModel,
    g: GraphModel,
    owner: Seq<char>,
    regs: Seq<(u32, TyModel)>,
    arg: Reg,
) -> Step<()> {
    match table_get(regs, arg.0) {
        Some(ty) => match peeled(ty) {
            TyModel::Struct(name, _) => if is_string_struct(name) {
                Ok((g, ()))
            } else {
                method_requested(rules, program, g, owner, peeled(ty), "write_to"@, 1, Seq::empty(), false)
            },
            _ => Ok((g, ())),
        },
        None => Ok((g, ())),
    }
}

/// Asks for what displaying a register calls.
pub fn enqueue_display_instance<R: CallRules>(
    rules: &R,
    program: &MirProgram,
    graph: &mut Graph,
    owner: &str,
    regs: &TyTable,
    arg: Reg,
) -> (r: Result<(), MonoError>)
    ensures
        stepped(
            *final(graph),
            r,
            display_requested(*rules, program@, old(graph)@, owner@, regs@, arg),
        ),
{
    proof {
        reveal(display_requested);
    }
    if let Some(ty) = regs.get(arg.0) {
        let plain: &Ty = peel_refs(ty);
        if let Ty::Struct(name, _) = plain {
            if !is_stdlib_string_struct(name) {
                let extra: Vec<(&str, Ty)> = Vec::new();
                assert(named_types(extra@) =~= Seq::empty());
                return enqueue_nominal_method_instance(
                    rules,
                    program,
                    graph,
                    owner,
                    plain,
                    "write_to",
                    1,
                    &extra,
                    false,
                );
            }
        }
    }
    Ok(())
}

/// Asking for what displaying the first `n` registers calls.
pub open spec fn displays_requested<R: CallRules>(
    rules: R,
    program: MirProgramModel,
    g: GraphModel,
    owner: Seq<char>,
    regs: Seq<(u32, TyModel)>,
    args: Seq<Reg>,
    n: nat,
) -> Step<()>
    decreases n,
{
    if n == 0 {
        Ok((g, ()))
    } else {
        match displays_requested(rules, program, g, owner, regs, args, (n - 1) as nat) {
            Err(e) => Err(e),
            Ok(s) => display_requested(rules, program, s.0, owner, regs, args[n - 1]),
        }
    }
}

proof fn lemma_displays_error<R: CallRules>(
    rules: R,
    program: MirProgramModel,
    g: GraphModel,
    owner: Seq<char>,
    regs: Seq<(u32, TyModel)>,
    args: Seq<Reg>,
    n: nat,
    m: nat,
)
    requires
        n <= m,
        displays_requested(rules, program, g, owner, regs, args, n) is Err,
    ensures
        displays_requested(rules, program, g, owner, regs, args, m) == displays_requested(
            rules,
            program,
            g,
            owner,
            regs,
            args,
            n,
        ),
    decreases m,
{
    if n < m {
        lemma_displays_error(rules, program, g, owner, regs, args, n, (m - 1) as nat);
    }
}

/// Asks for what displaying registers calls.
pub fn enqueue_display_instances<R: CallRules>(
    rules: &R,
    program: &MirProgram,
    graph: &mut Graph,
    owner: &str,
    regs: &TyTable,
    args: &Vec<Reg>,
) -> (r: Result<(), MonoError>)
    ensures
        stepped(
            *final(graph),
            r,
            displays_requested(*rules, program@, old(graph)@, owner@, regs@, args@, args@.len()),
        ),
{
    let ghost g = graph@;
    for i in 0..args.len()
        invariant
            g == old(graph)@,
            displays_requested(*rules, program@, g, owner@, regs@, args@, i as nat) == Ok::<(GraphModel, ()), MonoErrorModel>(
                (graph@, ()),
            ),
    {
        if let Err(e) = enqueue_display_instance(rules, program, graph, owner, regs, args[i]) {
            proof {
                assert(displays_requested(*rules, program@, g, owner@, regs@, args@, (i + 1) as nat) == Err::<
                    (GraphModel, ()),
                    MonoErrorModel,
                >(e@));
                lemma_displays_error(*rules, program@, g, owner@, regs@, args@, (i + 1) as nat, args@.len());
            }
            return Err(e);
        }
        assert(displays_requested(*rules, program@, g, owner@, regs@, args@, (i + 1) as nat) == Ok::<
            (GraphModel, ()),
            MonoErrorModel,
        >((graph@, ())));
    }
    Ok(())
}

/// The type of the string struct.
pub open spec fn string_struct() -> TyModel {
    TyModel::Struct(STDLIB_STRING_STRUCT@, Seq::empty())
}

/// Asking for what hashing a scalar or a literal calls: the hasher's
/// `_update_with_simd`, and for a string literal the `__hash__` of the string struct
/// at that hasher.
#[verifier::opaque]
pub open spec fn hash_leaf_requested<R: CallRules>(
    rules: R,
    program: MirProgramModel,
    g: GraphModel,
    owner: Seq<char>,
    regs: Seq<(u32, TyModel)>,
    hasher: Reg,
    receiver: TyModel,
) -> Step<()> {
    match table_get(regs, hasher.0) {
        Some(ty) => if peeled(ty) is Struct {
            match method_requested(
                rules,
                program,
                g,
                owner,
                peeled(ty),
                "_update_with_simd"@,
                1,
                Seq::empty(),
                true,
            ) {
                Err(e) => Err(e),
                Ok(s) => if receiver is StringLiteral {
                    method_requested(
                        rules,
                        program,
                        s.0,
                        owner,
                        string_struct(),
                        "__hash__"@,
                        1,
                        seq![("H"@, peeled(ty))],
                        true,
                    )
                } else {
                    Ok(s)
                },
            }
        } else {
            Ok((g, ()))
        },
        None => Ok((g, ())),
    }
}

/// Asks for what hashing a scalar or a literal calls.
pub fn enqueue_hash_leaf_instances<R: CallRules>(
    rules: &R,
    program: &MirProgram,
    graph: &mut Graph,
    owner: &str,
    regs: &TyTable,
    hasher: Reg,
    receiver: &Ty,
) -> (r: Result<(), MonoError>)
    ensures
        stepped(
            *final(graph),
            r,
            hash_leaf_requested(*rules, program@, old(graph)@, owner@, regs@, hasher, receiver@),
        ),
{
    proof {
        reveal(hash_leaf_requested);
    }
    if let Some(ty) = regs.get(hasher.0) {
        let plain: &Ty = peel_refs(ty);
        if let Ty::Struct(_, _) = plain {
            let none: Vec<(&str, Ty)> = Vec::new();
            assert(named_types(none@) =~= Seq::empty());
            if let Err(e) = enqueue_nominal_method_instance(
                rules,
                program,
                graph,
                owner,
                plain,
                "_update_with_simd",
                1,
                &none,
                true,
            ) {
                return Err(e);
            }
            if let Ty::StringLiteral = receiver {
                let args: Vec<TyArg> = Vec::new();
                assert(ty_args_view(args) =~= Seq::empty());
                let string: Ty = Ty::Struct(STDLIB_STRING_STRUCT.to_owned(), args);
                let mut extra: Vec<(&str, Ty)> = Vec::new();
                extra.push(("H", plain.copy()));
                assert(named_types(extra@) =~= seq![("H"@, plain@)]);
                return enqueue_nominal_method_instance(
                    rules,
                    program,
                    graph,
                    owner,
                    &string,
                    "__hash__",
                    1,
                    &extra,
                    true,
                );
            }
        }
    }
    Ok(())
}

/// Asking for a nullary method on a concrete receiver: its symbol and its result
/// type.
#[verifier::opaque]
pub open spec fn receiver_requested(
    program: MirProgramModel,
    g: GraphModel,
    owner: Seq<char>,
    target: Seq<char>,
    receiver: TyModel,
    result: Option<TyModel>,
) -> Step<(Seq<char>, TyModel)> {
    match receiver_call(program, owner, target, receiver, result) {
        Err(e) => Err(e),
        Ok(s) => match enqueued(program, g, target, s.0, s.1) {
            Err(e) => Err(e),
            Ok(t) => Ok((t.0, (t.1, s.2))),
        },
    }
}

/// Whether the outcome of a step that gives a symbol and a type is the specified
/// one.
pub open spec fn names_typed(
    graph: Graph,
    r: Result<(String, Ty), MonoError>,
    wanted: Step<(Seq<char>, TyModel)>,
) -> bool {
    match r {
        Ok(t) => wanted == Ok::<(GraphModel, (Seq<char>, TyModel)), MonoErrorModel>((graph@, (t.0@, t.1@))),
        Err(e) => wanted == Err::<(GraphModel, (Seq<char>, TyModel)), MonoErrorModel>(e@),
    }
}

/// Asks for a nullary method on a concrete receiver.
pub fn enqueue_receiver_call(
    program: &MirProgram,
    graph: &mut Graph,
    owner: &str,
    target: &str,
    receiver: &Ty,
    result: Option<&Ty>,
) -> (r: Result<(String, Ty), MonoError>)
    ensures
        names_typed(
            *final(graph),
            r,
            receiver_requested(program@, old(graph)@, owner@, target@, receiver@, found_view(result)),
        ),
{
    proof {
        reveal(receiver_requested);
    }
    match infer_receiver_call(program, owner, target, receiver, result) {
        Err(e) => Err(e),
        Ok(s) => match enqueue(program, graph, target, s.0, s.1) {
            Err(e) => Err(e),
            Ok(name) => Ok((name, s.2)),
        },
    }
}

/// Asking for the `__int__` that building a vector from a nominal element calls.
#[verifier::opaque]
pub open spec fn intable_requested<R: CallRules>(
    rules: R,
    program: MirProgramModel,
    g: GraphModel,
    owner: Seq<char>,
    regs: Seq<(u32, TyModel)>,
    arg: Reg,
) -> Step<()> {
    match table_get(regs, arg.0) {
        Some(ty) => match ty {
            TyModel::Struct(name, _) => {
                let target = rules.method_symbol(
                    program.functions,
                    template_of(name),
                    "__int__"@,
                    None,
                    0,
                    0,
                );
                if body_of(program.functions, target) is None {
                    Ok((g, ()))
                } else {
                    quiet(receiver_requested(program, g, owner, target, ty, None))
                }
            },
            _ => Ok((g, ())),
        },
        None => Ok((g, ())),
    }
}

/// Asks for the `__int__` that building a vector from a nominal element calls.
pub fn enqueue_intable_instance<R: CallRules>(
    rules: &R,
    program: &MirProgram,
    graph: &mut Graph,
    owner: &str,
    regs: &TyTable,
    arg: Reg,
) -> (r: Result<(), MonoError>)
    ensures
        stepped(
            *final(graph),
            r,
            intable_requested(*rules, program@, old(graph)@, owner@, regs@, arg),
        ),
{
    proof {
        reveal(intable_requested);
    }
    if let Some(ty) = regs.get(arg.0) {
        if let Ty::Struct(name, _) = ty {
            let target: String = rules.resolve_method_symbol(
                &program.functions,
                nominal_template(name),
                "__int__",
                &None,
                0,
                0,
            );
            if find_body(&program.functions, &target).is_some() {
                if let Err(e) = enqueue_receiver_call(program, graph, owner, &target, ty, None) {
                    return Err(e);
                }
            }
        }
    }
    Ok(())
}

/// Asking for the `__int__` of each of the first `n` elements.
pub open spec fn intables_requested<R: CallRules>(
    rules: R,
    program: MirProgramModel,
    g: GraphModel,
    owner: Seq<char>,
    regs: Seq<(u32, TyModel)>,
    elems: Seq<Reg>,
    n: nat,
) -> Step<()>
    decreases n,
{
    if n == 0 {
        Ok((g, ()))
    } else {
        match intables_requested(rules, program, g, owner, regs, elems, (n - 1) as nat) {
            Err(e) => Err(e),
            Ok(s) => intable_requested(rules, program, s.0, owner, regs, elems[n - 1]),
        }
    }
}

proof fn lemma_intables_error<R: CallRules>(
    rules: R,
    program: MirProgramModel,
    g: GraphModel,
    owner: Seq<char>,
    regs: Seq<(u32, TyModel)>,
    elems: Seq<Reg>,
    n: nat,
    m: nat,
)
    requires
        n <= m,
        intables_requested(rules, program, g, owner, regs, elems, n) is Err,
    ensures
        intables_requested(rules, program, g, owner, regs, elems, m) == intables_requested(
            rules,
            program,
            g,
            owner,
            regs,
            elems,
            n,
        ),
    decreases m,
{
    if n < m {
        lemma_intables_error(rules, program, g, owner, regs, elems, n, (m - 1) as nat);
    }
}

/// Asks for the `__int__` of each element.
pub fn enqueue_intable_instances<R: CallRules>(
    rules: &R,
    program: &MirProgram,
    graph: &mut Graph,
    owner: &str,
    regs: &TyTable,
    elems: &Vec<Reg>,
) -> (r: Result<(), MonoError>)
    ensures
        stepped(
            *final(graph),
            r,
            intables_requested(*rules, program@, old(graph)@, owner@, regs@, elems@, elems@.len()),
        ),
{
    let ghost g = graph@;
    for i in 0..elems.len()
        invariant
            g == old(graph)@,
            intables_requested(*rules, program@, g, owner@, regs@, elems@, i as nat) == Ok::<(GraphModel, ()), MonoErrorModel>(
                (graph@, ()),
            ),
    {
        if let Err(e) = enqueue_intable_instance(rules, program, graph, owner, regs, elems[i]) {
            proof {
                assert(intables_requested(*rules, program@, g, owner@, regs@, elems@, (i + 1) as nat) == Err::<
                    (GraphModel, ()),
                    MonoErrorModel,
                >(e@));
                lemma_intables_error(
                    *rules,
                    program@,
                    g,
                    owner@,
                    regs@,
                    elems@,
                    (i + 1) as nat,
                    elems@.len(),
                );
            }
            return Err(e);
        }
        assert(intables_requested(*rules, program@, g, owner@, regs@, elems@, (i + 1) as nat) == Ok::<
            (GraphModel, ()),
            MonoErrorModel,
        >((graph@, ())));
    }
    Ok(())
}

/// The constant that reading a value parameter of a struct gives. A declared field
/// of the name hides the parameter.
#[verifier::opaque]
pub open spec fn parameter_constant(
    program: MirProgramModel,
    receiver: TyModel,
    field: Seq<char>,
) -> Option<ConstModel> {
    match peeled(receiver) {
        TyModel::Struct(name, args) => match struct_template(program.declarations.structs, template_of(name)) {
            Some(declaration) => if field_of(declaration.fields, field) is Some {
                None
            } else {
                match value_param_position(declaration.param_decls, field, 0) {
                    Some(i) => if i < args.len() {
                        match args[i] {
                            TyArgModel::Val(value) => reified(value),
                            _ => None,
                        }
                    } else {
                        None
                    },
                    None => None,
                }
            },
            None => None,
        },
        _ => None,
    }
}

/// The constant of a compile-time scalar. Unsigned values keep their bits.
pub open spec fn reified(value: CtValueModel) -> Option<ConstModel> {
    match value {
        CtValueModel::Int(v) => Some(ConstModel::Int(v)),
        CtValueModel::UInt(v) => Some(ConstModel::Int(wrap64(v as int))),
        CtValueModel::Bool(v) => Some(ConstModel::Bool(v)),
        _ => None,
    }
}

/// The first value parameter at or past `from` with the name.
pub open spec fn value_param_position(decls: Seq<ParamDeclModel>, name: Seq<char>, from: int) -> Option<int>
    decreases decls.len() - from,
{
    if from < 0 || from >= decls.len() {
        None
    } else if decls[from] is Value && decl_name(decls[from]) == name {
        Some(from)
    } else {
        value_param_position(decls, name, from + 1)
    }
}

fn position_of_value_param(decls: &Vec<ParamDecl>, name: &str) -> (r: Option<usize>)
    ensures
        match r {
            Some(i) => value_param_position(param_decls_view(*decls), name@, 0) == Some(i as int),
            None => value_param_position(param_decls_view(*decls), name@, 0) is None,
        },
{
    let ghost model = param_decls_view(*decls);
    for i in 0..decls.len()
        invariant
            model == param_decls_view(*decls),
            value_param_position(model, name@, 0) == value_param_position(model, name@, i as int),
    {
        assert(model[i as int] == decls@[i as int]@);
        if let ParamDecl::Value { name: found, .. } = &decls[i] {
            if str_eq(found, name) {
                return Some(i);
            }
        }
    }
    None
}

/// The model of an optional constant.
pub open spec fn opt_const_view(k: Option<Const>) -> Option<ConstModel> {
    match k {
        Some(k) => Some(k@),
        None => None,
    }
}

fn signed_bits(v: u64) -> (r: i64)
    ensures
        r == wrap64(v as int),
{
    if v < 0x8000_0000_0000_0000 {
        v as i64
    } else {
        (v - 0x8000_0000_0000_0000) as i64 + i64::MIN
    }
}

fn reify(value: &CtValue) -> (r: Option<Const>)
    ensures
        opt_const_view(r) == reified(value@),
{
    match value {
        CtValue::Int(v) => Some(Const::Int(*v)),
        CtValue::UInt(v) => Some(Const::Int(signed_bits(*v))),
        CtValue::Bool(v) => Some(Const::Bool(*v)),
        _ => None,
    }
}

/// The constant that reading a value parameter of a struct gives.
pub fn value_param_constant(program: &MirProgram, receiver: &Ty, field: &str) -> (r: Option<Const>)
    ensures
        opt_const_view(r) == parameter_constant(program@, receiver@, field@),
{
    proof {
        reveal(parameter_constant);
    }
    if let Ty::Struct(name, args) = peel_refs(receiver) {
        assert(ty_args_view(*args).len() == args@.len());
        if let Some(declaration) = find_struct(&program.declarations.structs, nominal_template(name)) {
            if field_declared(&declaration.fields, field).is_some() {
                return None;
            }
            if let Some(i) = position_of_value_param(&declaration.param_decls, field) {
                if i < args.len() {
                    assert(ty_args_view(*args)[i as int] == args@[i as int]@);
                    if let TyArg::Val(value) = &args[i] {
                        return reify(value);
                    }
                }
            }
        }
    }
    None
}

/// The failure of iterating over something that is no struct.
pub open spec fn not_iterable(owner: Seq<char>, method: Seq<char>, receiver: TyModel) -> MonoErrorModel {
    failure_in(
        owner,
        "iterator `"@ + method + "` operation applied to non-struct type `"@ + ty_text(receiver) + "`"@,
    )
}

/// One operation of the iterator protocol on a concrete receiver: the symbol of the
/// instance, and its result type.
#[verifier::opaque]
pub open spec fn iterator_step<R: CallRules>(
    rules: R,
    program: MirProgramModel,
    g: GraphModel,
    owner: Seq<char>,
    receiver: TyModel,
    method: Seq<char>,
    selected: Seq<char>,
    result: Option<TyModel>,
) -> Step<(Seq<char>, TyModel)> {
    match receiver {
        TyModel::Struct(name, _) => {
            let target = rules.method_symbol(
                program.functions,
                template_of(name),
                method,
                Some(selected),
                0,
                0,
            );
            if body_of(program.functions, target) is None {
                Err(failure_in(owner, "iterator method `"@ + target + "` is missing from the MIR program"@))
            } else {
                receiver_requested(program, g, owner, target, receiver, result)
            }
        },
        _ => Err(not_iterable(owner, method, receiver)),
    }
}

/// Resolves one operation of the iterator protocol on a concrete receiver, and asks
/// for the instance.
pub fn resolve_iterator_step<R: CallRules>(
    rules: &R,
    program: &MirProgram,
    graph: &mut Graph,
    owner: &str,
    receiver: &Ty,
    method: &str,
    selected: &String,
    result: Option<&Ty>,
) -> (r: Result<(String, Ty), MonoError>)
    ensures
        names_typed(
            *final(graph),
            r,
            iterator_step(
                *rules,
                program@,
                old(graph)@,
                owner@,
                receiver@,
                method@,
                selected@,
                found_view(result),
            ),
        ),
{
    proof {
        reveal(iterator_step);
    }
    match receiver {
        Ty::Struct(name, _) => {
            let target: String = rules.resolve_method_symbol(
                &program.functions,
                nominal_template(name),
                method,
                &Some(selected.clone()),
                0,
                0,
            );
            if find_body(&program.functions, &target).is_none() {
                return Err(
                    fail_in(owner, cat3("iterator method `", &target, "` is missing from the MIR program")),
                );
            }
            enqueue_receiver_call(program, graph, owner, &target, receiver, result)
        },
        _ => Err(
            fail_in(
                owner,
                cat5(
                    "iterator `",
                    method,
                    "` operation applied to non-struct type `",
                    &receiver.text(),
                    "`",
                ),
            ),
        ),
    }
}

/// Whether a concrete receiver has a nullary `__next__`.
pub open spec fn advances<R: CallRules>(rules: R, program: MirProgramModel, receiver: TyModel) -> bool {
    match receiver {
        TyModel::Struct(name, _) => body_of(
            program.functions,
            rules.method_symbol(program.functions, template_of(name), "__next__"@, None, 0, 0),
        ) is Some,
        _ => false,
    }
}

/// Whether a concrete receiver has a nullary `__next__`.
pub fn has_iterator_next<R: CallRules>(rules: &R, program: &MirProgram, receiver: &Ty) -> (r: bool)
    ensures
        r == advances(*rules, program@, receiver@),
{
    match receiver {
        Ty::Struct(name, _) => {
            let target: String = rules.resolve_method_symbol(
                &program.functions,
                nominal_template(name),
                "__next__",
                &None,
                0,
                0,
            );
            find_body(&program.functions, &target).is_some()
        },
        _ => false,
    }
}

/// The first `n` preparation steps of a loop: their symbols, and the type they
/// give.
pub open spec fn prepared<R: CallRules>(
    rules: R,
    program: MirProgramModel,
    g: GraphModel,
    owner: Seq<char>,
    start: TyModel,
    prepare: Seq<Seq<char>>,
    n: nat,
) -> Step<(Seq<Seq<char>>, TyModel)>
    decreases n,
{
    if n == 0 {
        Ok((g, (Seq::empty(), start)))
    } else {
        match prepared(rules, program, g, owner, start, prepare, (n - 1) as nat) {
            Err(e) => Err(e),
            Ok(s) => match iterator_step(
                rules,
                program,
                s.0,
                owner,
                s.1.1,
                "__iter__"@,
                prepare[n - 1],
                None,
            ) {
                Err(e) => Err(e),
                Ok(t) => Ok((t.0, (s.1.0.push(t.1.0), t.1.1))),
            },
        }
    }
}

proof fn lemma_prepared_error<R: CallRules>(
    rules: R,
    program: MirProgramModel,
    g: GraphModel,
    owner: Seq<char>,
    start: TyModel,
    prepare: Seq<Seq<char>>,
    n: nat,
    m: nat,
)
    requires
        n <= m,
        prepared(rules, program, g, owner, start, prepare, n) is Err,
    ensures
        prepared(
            rules,
            program,
            g,
            owner,
            start,
            prepare,
            m,
        ) == prepared(rules, program, g, owner, start, prepare, n),
    decreases m,
{
    if n < m {
        lemma_prepared_error(rules, program, g, owner, start, prepare, n, (m - 1) as nat);
    }
}

/// Repeating a dynamic preparation step until the value can be advanced, at most
/// `budget` times.
pub open spec fn normalized<R: CallRules>(
    rules: R,
    program: MirProgramModel,
    g: GraphModel,
    owner: Seq<char>,
    current: TyModel,
    selected: Seq<char>,
    done: Seq<Seq<char>>,
    budget: nat,
) -> Step<(Seq<Seq<char>>, TyModel)>
    decreases budget,
{
    if advances(rules, program, current) {
        Ok((g, (done, current)))
    } else if budget == 0 {
        Err(failure_in(owner, "iterator normalization did not converge within the dispatch budget"@))
    } else {
        match iterator_step(rules, program, g, owner, current, "__iter__"@, selected, None) {
            Err(e) => Err(e),
            Ok(s) => normalized(
                rules,
                program,
                s.0,
                owner,
                s.1.1,
                selected,
                done.push(s.1.0),
                (budget - 1) as nat,
            ),
        }
    }
}

/// The first dynamic preparation step.
pub open spec fn dynamic_step(prepare: Seq<Seq<char>>) -> Option<Seq<char>>
    decreases prepare.len(),
{
    if prepare.len() == 0 {
        None
    } else if is_trait_dispatch(prepare[0]) {
        Some(prepare[0])
    } else {
        dynamic_step(prepare.skip(1))
    }
}

fn find_dynamic_step(prepare: &Vec<String>) -> (r: Option<String>)
    ensures
        opt_string_view(r) == dynamic_step(strings_view(*prepare)),
{
    let ghost model = strings_view(*prepare);
    assert(model.skip(0) =~= model);
    for i in 0..prepare.len()
        invariant
            model == strings_view(*prepare),
            dynamic_step(model) == dynamic_step(model.skip(i as int)),
    {
        assert(model.skip(i as int)[0] == prepare@[i as int]@);
        assert(model.skip(i as int).skip(1) =~= model.skip(i + 1));
        if starts_with(&prepare[i], "__trait_dispatch.") {
            return Some(prepare[i].clone());
        }
    }
    None
}

/// The whole preparation of a loop over a value of type `start`.
#[verifier::opaque]
pub open spec fn loop_prepared<R: CallRules>(
    rules: R,
    program: MirProgramModel,
    g: GraphModel,
    owner: Seq<char>,
    start: TyModel,
    prepare: Seq<Seq<char>>,
) -> Step<(Seq<Seq<char>>, TyModel)> {
    match prepared(rules, program, g, owner, start, prepare, prepare.len()) {
        Err(e) => Err(e),
        Ok(s) => match dynamic_step(prepare) {
            None => Ok(s),
            Some(selected) => normalized(rules, program, s.0, owner, s.1.1, selected, s.1.0, 8),
        },
    }
}

/// Whether the outcome of preparing a loop is the specified one.
pub open spec fn prepares(
    graph: Graph,
    r: Result<(Vec<String>, Ty), MonoError>,
    wanted: Step<(Seq<Seq<char>>, TyModel)>,
) -> bool {
    match r {
        Ok(t) => wanted == Ok::<(GraphModel, (Seq<Seq<char>>, TyModel)), MonoErrorModel>(
            (graph@, (strings_view(t.0), t.1@)),
        ),
        Err(e) => wanted == Err::<(GraphModel, (Seq<Seq<char>>, TyModel)), MonoErrorModel>(e@),
    }
}

fn prepare_steps<R: CallRules>(
    rules: &R,
    program: &MirProgram,
    graph: &mut Graph,
    owner: &str,
    start: &Ty,
    prepare: &Vec<String>,
) -> (r: Result<(Vec<String>, Ty), MonoError>)
    ensures
        prepares(
            *final(graph),
            r,
            prepared(
                *rules,
                program@,
                old(graph)@,
                owner@,
                start@,
                strings_view(*prepare),
                prepare@.len(),
            ),
        ),
{
    let ghost g = graph@;
    let ghost model = strings_view(*prepare);
    let mut done: Vec<String> = Vec::new();
    let mut current: Ty = start.copy();
    assert(strings_view(done) =~= Seq::empty());
    for i in 0..prepare.len()
        invariant
            g == old(graph)@,
            model == strings_view(*prepare),
            prepared(*rules, program@, g, owner@, start@, model, i as nat) == Ok::<
                (GraphModel, (Seq<Seq<char>>, TyModel)),
                MonoErrorModel,
            >((graph@, (strings_view(done), current@))),
    {
        assert(model[i as int] == prepare@[i as int]@);
        match resolve_iterator_step(rules, program, graph, owner, &current, "__iter__", &prepare[i], None) {
            Ok(t) => {
                let ghost before = strings_view(done);
                done.push(t.0);
                assert(strings_view(done) =~= before.push(t.0@));
                current = t.1;
                assert(prepared(*rules, program@, g, owner@, start@, model, (i + 1) as nat) == Ok::<
                    (GraphModel, (Seq<Seq<char>>, TyModel)),
                    MonoErrorModel,
                >((graph@, (strings_view(done), current@))));
            },
            Err(e) => {
                proof {
                    assert(prepared(*rules, program@, g, owner@, start@, model, (i + 1) as nat) == Err::<
                        (GraphModel, (Seq<Seq<char>>, TyModel)),
                        MonoErrorModel,
                    >(e@));
                    lemma_prepared_error(
                        *rules,
                        program@,
                        g,
                        owner@,
                        start@,
                        model,
                        (i + 1) as nat,
                        model.len(),
                    );
                }
                return Err(e);
            },
        }
    }
    Ok((done, current))
}

fn normalize<R: CallRules>(
    rules: &R,
    program: &MirProgram,
    graph: &mut Graph,
    owner: &str,
    start: Ty,
    selected: &String,
    begun: Vec<String>,
    limit: usize,
) -> (r: Result<(Vec<String>, Ty), MonoError>)
    ensures
        prepares(
            *final(graph),
            r,
            normalized(
                *rules,
                program@,
                old(graph)@,
                owner@,
                start@,
                selected@,
                strings_view(begun),
                limit as nat,
            ),
        ),
{
    let ghost wanted = normalized(
        *rules,
        program@,
        graph@,
        owner@,
        start@,
        selected@,
        strings_view(begun),
        limit as nat,
    );
    let mut done: Vec<String> = begun;
    let mut current: Ty = start;
    let mut budget: usize = limit;
    while !has_iterator_next(rules, program, &current)
        invariant
            wanted == normalized(
                *rules,
                program@,
                graph@,
                owner@,
                current@,
                selected@,
                strings_view(done),
                budget as nat,
            ),
            wanted == normalized(
                *rules,
                program@,
                old(graph)@,
                owner@,
                start@,
                selected@,
                strings_view(begun),
                limit as nat,
            ),
        decreases budget,
    {
        if budget == 0 {
            return Err(
                fail_in(
                    owner,
                    "iterator normalization did not converge within the dispatch budget".to_owned(),
                ),
            );
        }
        budget = budget - 1;
        match resolve_iterator_step(rules, program, graph, owner, &current, "__iter__", selected, None) {
            Ok(t) => {
                let ghost before = strings_view(done);
                done.push(t.0);
                assert(strings_view(done) =~= before.push(t.0@));
                current = t.1;
            },
            Err(e) => return Err(e),
        }
    }
    Ok((done, current))
}

/// Prepares a loop: asks for every preparation step, and unrolls a dynamic one until
/// the value can be advanced.
pub fn prepare_loop<R: CallRules>(
    rules: &R,
    program: &MirProgram,
    graph: &mut Graph,
    owner: &str,
    start: &Ty,
    prepare: &Vec<String>,
) -> (r: Result<(Vec<String>, Ty), MonoError>)
    ensures
        prepares(
            *final(graph),
            r,
            loop_prepared(*rules, program@, old(graph)@, owner@, start@, strings_view(*prepare)),
        ),
{
    proof {
        reveal(loop_prepared);
    }
    assert(strings_view(*prepare).len() == prepare@.len());
    match prepare_steps(rules, program, graph, owner, start, prepare) {
        Err(e) => Err(e),
        Ok(s) => match find_dynamic_step(prepare) {
            None => Ok(s),
            Some(selected) => normalize(rules, program, graph, owner, s.1, &selected, s.0, 8),
        },
    }
}

/// The value parameters of a selected subscript that nothing else solved: each
/// needs a constant, and joins the identity of the instance.
pub open spec fn accessor_values(
    constants: Map<u32, CtValueModel>,
    decls: Seq<ParamDeclModel>,
    regs: Seq<MirParamArgModel>,
    n: nat,
    b: BindingsModel,
    args: Seq<InstanceArgModel>,
) -> Option<(BindingsModel, Seq<InstanceArgModel>)>
    decreases n,
{
    if n == 0 {
        Some((b, args))
    } else {
        match accessor_values(constants, decls, regs, (n - 1) as nat, b, args) {
            None => None,
            Some(s) => match decls[n - 1] {
                ParamDeclModel::Value { name, .. } => if s.0.values.dom().contains(name) {
                    Some(s)
                } else {
                    match regs[n - 1].value {
                        None => None,
                        Some(reg) => if constants.dom().contains(reg.0) {
                            Some(
                                (
                                    BindingsModel {
                                        values: s.0.values.insert(name, constants[reg.0]),
                                        ..s.0
                                    },
                                    s.1.push(InstanceArgModel::Value(constants[reg.0])),
                                ),
                            )
                        } else {
                            None
                        },
                    }
                },
                _ => Some(s),
            },
        }
    }
}

proof fn lemma_accessor_none(
    constants: Map<u32, CtValueModel>,
    decls: Seq<ParamDeclModel>,
    regs: Seq<MirParamArgModel>,
    n: nat,
    m: nat,
    b: BindingsModel,
    args: Seq<InstanceArgModel>,
)
    requires
        n <= m,
        accessor_values(constants, decls, regs, n, b, args) is None,
    ensures
        accessor_values(constants, decls, regs, m, b, args) is None,
    decreases m,
{
    if n < m {
        lemma_accessor_none(constants, decls, regs, n, (m - 1) as nat, b, args);
    }
}

fn bind_accessor_values(
    constants: &IdMap<CtValue>,
    decls: &Vec<ParamDecl>,
    regs: &Vec<MirParamArg>,
    bindings: &mut Bindings,
    args: &mut Vec<InstanceArg>,
) -> (r: bool)
    ensures
        ({
            let wanted = accessor_values(
                id_values_view(constants@),
                param_decls_view(*decls),
                param_args_view(*regs),
                shorter(decls@.len(), regs@.len()),
                old(bindings)@,
                instance_args_view(*old(args)),
            );
            if r {
                wanted == Some((final(bindings)@, instance_args_view(*final(args))))
            } else {
                wanted is None
            }
        }),
{
    let ghost cm = id_values_view(constants@);
    let ghost (b, a) = (bindings@, instance_args_view(*args));
    let ghost (dm, rm) = (param_decls_view(*decls), param_args_view(*regs));
    let n: usize = if decls.len() < regs.len() { decls.len() } else { regs.len() };
    for i in 0..n
        invariant
            cm == id_values_view(constants@),
            b == old(bindings)@,
            a == instance_args_view(*old(args)),
            dm == param_decls_view(*decls),
            rm == param_args_view(*regs),
            n == shorter(decls@.len(), regs@.len()),
            accessor_values(cm, dm, rm, i as nat, b, a) == Some((bindings@, instance_args_view(*args))),
    {
        assert(dm[i as int] == decls@[i as int]@);
        assert(rm[i as int] == regs@[i as int]@);
        if let ParamDecl::Value { name, .. } = &decls[i] {
            if bindings.value(name).is_none() {
                let value: Option<CtValue> = match regs[i].value {
                    Some(reg) => match constants.get(reg.0) {
                        Some(value) => Some(value.copy()),
                        None => None,
                    },
                    None => None,
                };
                match value {
                    Some(value) => {
                        let ghost before = instance_args_view(*args);
                        bindings.set_value(name.clone(), value.copy());
                        args.push(InstanceArg::Value(value));
                        assert(instance_args_view(*args) =~= before.push(InstanceArgModel::Value(value@)));
                    },
                    None => {
                        proof {
                            assert(accessor_values(cm, dm, rm, (i + 1) as nat, b, a) is None);
                            lemma_accessor_none(cm, dm, rm, (i + 1) as nat, n as nat, b, a);
                        }
                        return false;
                    },
                }
            }
        }
        assert(
            accessor_values(cm, dm, rm, (i + 1) as nat, b, a) == Some((bindings@, instance_args_view(*args)))
        );
    }
    true
}

/// Retargeting a selected subscript to its instance: the receiver binds the owner's
/// parameters, the selected result type anchors the result, and constant value
/// arguments join the identity. One that cannot be retargeted stays.
#[verifier::opaque]
pub open spec fn subscript_retargeted<R: CallRules>(
    rules: R,
    program: MirProgramModel,
    g: GraphModel,
    owner: Seq<char>,
    function: MirFunctionModel,
    constants: Map<u32, CtValueModel>,
    receiver: Reg,
    method: Seq<char>,
    call: MirSubscriptCallModel,
) -> Step<Seq<char>> {
    match table_get(function.reg_types, receiver.0) {
        None => Ok((g, call.target)),
        Some(ty) => match peeled(ty) {
            TyModel::Struct(name, _) => {
                let target = rules.method_symbol(
                    program.functions,
                    template_of(name),
                    method,
                    Some(call.target),
                    call.arguments.len(),
                    0,
                );
                if body_of(program.functions, target) is None {
                    Ok((g, call.target))
                } else {
                    match receiver_call(program, owner, target, peeled(ty), Some(call.result_ty)) {
                        Err(e) => Err(e),
                        Ok(s) => match accessor_values(
                            constants,
                            call.param_decls,
                            call.param_arg_regs,
                            shorter(call.param_decls.len(), call.param_arg_regs.len()),
                            s.0,
                            s.1,
                        ) {
                            None => Ok((g, call.target)),
                            Some(t) => enqueued(program, g, target, t.0, t.1),
                        },
                    }
                }
            },
            _ => Ok((g, call.target)),
        },
    }
}

/// Retargets a selected subscript to its instance, and gives the symbol.
pub fn retarget_subscript_call<R: CallRules>(
    rules: &R,
    program: &MirProgram,
    graph: &mut Graph,
    owner: &str,
    function: &MirFunction,
    constants: &IdMap<CtValue>,
    receiver: Reg,
    method: &str,
    call: &MirSubscriptCall,
) -> (r: Result<String, MonoError>)
    ensures
        names(
            *final(graph),
            r,
            subscript_retargeted(
                *rules,
                program@,
                old(graph)@,
                owner@,
                function@,
                id_values_view(constants@),
                receiver,
                method@,
                call@,
            ),
        ),
{
    proof {
        reveal(subscript_retargeted);
    }
    assert(call@.arguments.len() == call.arguments@.len());
    assert(call@.param_decls.len() == call.param_decls@.len());
    assert(call@.param_arg_regs.len() == call.param_arg_regs@.len());
    if let Some(ty) = function.reg_types.get(receiver.0) {
        let plain: &Ty = peel_refs(ty);
        if let Ty::Struct(name, _) = plain {
            let target: String = rules.resolve_method_symbol(
                &program.functions,
                nominal_template(name),
                method,
                &Some(call.target.clone()),
                call.arguments.len(),
                0,
            );
            if find_body(&program.functions, &target).is_some() {
                let solved: (Bindings, Vec<InstanceArg>, Ty) = match infer_receiver_call(
                    program,
                    owner,
                    &target,
                    plain,
                    Some(&call.result_ty),
                ) {
                    Ok(s) => s,
                    Err(e) => return Err(e),
                };
                let mut bindings: Bindings = solved.0;
                let mut args: Vec<InstanceArg> = solved.1;
                if bind_accessor_values(
                    constants,
                    &call.param_decls,
                    &call.param_arg_regs,
                    &mut bindings,
                    &mut args,
                ) {
                    return enqueue(program, graph, &target, bindings, args);
                }
            }
        }
    }
    Ok(call.target.clone())
}

} // verus!
