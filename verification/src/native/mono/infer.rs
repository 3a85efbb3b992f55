//! Solving the parameters of a call.

use crate::ct::{CtValue, CtValueModel, wrap64};
use crate::data::strings_view;
use crate::mir::{
    MirFunction, MirFunctionDeclaration, MirFunctionDeclarationModel, MirFunctionModel, MirParamArg,
    MirParamArgModel, MirProgram, MirProgramModel, MirStructDeclaration, MirStructDeclarationModel,
    Reg, param_args_view, string_regs_view, struct_declarations_view,
};
use crate::mir::verify::found_view;
use crate::native::mono::{MonoError, MonoErrorModel};
use crate::native::mono::bindings::{Bindings, BindingsModel, no_bindings};
use crate::native::mono::facts::{
    Bound, TargetModel, apply_defaults, bind_explicit_value_arguments, bound_view, covered_prefix,
    declared_arguments, defaults, explicit_walk, id_values_view, ordered_arguments,
    owner_covered_prefix, push_sugar_arguments, reg_ty, sugar_args, target_map_view,
    untyped_register,
};
use crate::native::mono::rules::{
    ArgSlot, CallRules, CallSlots, SlotsModel, body_of, facts_of, find_body, find_facts,
    find_struct, slot_exists, slots_exist, struct_template,
};
use crate::native::mono::subst::{subst_ty, substitute_ty};
use crate::native::mono::unify::{
    Solved, bind_args, bind_ty_args, is_symbolic, peel_refs, peeled, solved_view, symbolic, unify,
    unify_result, unify_result_ty, unify_ty,
};
use crate::symbol::{
    InstanceArg, InstanceArgModel, instance_args_view, instance_name, instance_symbol,
    nominal_template, template_of,
};
use crate::table::{IdMap, table_get};
use crate::text::{cat3, cat4, cat6, str_eq};
use crate::types::{ParamDecl, ParamDeclModel, Ty, TyArg, TyArgModel, TyModel, param_decls_view, ty_args_view};
use vstd::prelude::*;

verus! {

/// A failure of the named function.
pub open spec fn failure_in(function: Seq<char>, construct: Seq<char>) -> MonoErrorModel {
    MonoErrorModel { function: Some(function), construct }
}

/// A failure of the named function.
pub fn fail_in(function: &str, construct: String) -> (r: MonoError)
    ensures
        r@ == failure_in(function@, construct@),
{
    MonoError { function: Some(function.to_owned()), construct }
}

/// The generic struct templates of a program.
pub open spec fn generic_names(structs: Seq<MirStructDeclarationModel>) -> Seq<Seq<char>>
    decreases structs.len(),
{
    if structs.len() == 0 {
        Seq::empty()
    } else {
        let before = generic_names(structs.drop_last());
        if structs.last().param_decls.len() > 0 { before.push(structs.last().name) } else { before }
    }
}

/// Bindings of nothing, in the program.
pub open spec fn fresh_bindings(program: MirProgramModel) -> BindingsModel {
    no_bindings(generic_names(program.declarations.structs))
}

/// Bindings of nothing, in the program.
pub fn base_bindings(program: &MirProgram) -> (r: Bindings)
    ensures
        r@ == fresh_bindings(program@),
{
    let structs: &Vec<MirStructDeclaration> = &program.declarations.structs;
    let ghost model = struct_declarations_view(*structs);
    assert(program@.declarations.structs == model);
    let mut names: Vec<String> = Vec::new();
    assert(strings_view(names) =~= generic_names(model.take(0)));
    for i in 0..structs.len()
        invariant
            model == struct_declarations_view(*structs),
            strings_view(names) == generic_names(model.take(i as int)),
    {
        assert(model.take(i + 1).drop_last() =~= model.take(i as int));
        assert(model[i as int] == structs@[i as int]@);
        assert(model[i as int].param_decls.len() == structs@[i as int].param_decls@.len());
        let ghost before = strings_view(names);
        if structs[i].param_decls.len() > 0 {
            names.push(structs[i].name.clone());
            assert(strings_view(names) =~= before.push(structs@[i as int].name@));
        }
    }
    assert(model.take(model.len() as int) =~= model);
    Bindings::with_templates(names)
}

/// Bindings with how many leading parameters of a method its owner covers.
pub type Anchored = Result<(BindingsModel, nat), MonoErrorModel>;

/// Whether the outcome of a step is the specified one: what a failed step leaves
/// bound is not.
pub open spec fn anchors(bindings: Bindings, r: Result<usize, MonoError>, wanted: Anchored) -> bool {
    match r {
        Ok(covered) => wanted == Ok::<(BindingsModel, nat), MonoErrorModel>((bindings@, covered as nat)),
        Err(e) => wanted == Err::<(BindingsModel, nat), MonoErrorModel>(e@),
    }
}

/// Binding the owner's parameters from a receiver. An instance-named receiver
/// carries the concrete identity of the owner.
#[verifier::opaque]
pub open spec fn receiver_bound(
    program: MirProgramModel,
    owner: Seq<char>,
    target: Seq<char>,
    decls: Seq<ParamDeclModel>,
    receiver: TyModel,
    b: BindingsModel,
) -> Anchored {
    match receiver {
        TyModel::Struct(name, args) => match struct_template(program.declarations.structs, template_of(name)) {
            Some(declaration) => {
                let s = bind_args(declaration.param_decls, args, b);
                match s.error {
                    Some(e) => Err(failure_in(owner, "monomorphizing receiver for `"@ + target + "`: "@ + e)),
                    None => if template_of(name) != name {
                        Ok(
                            (
                                BindingsModel {
                                    self_instance: Some((template_of(name), receiver)),
                                    ..s.bindings
                                },
                                covered_prefix(declaration.param_decls, decls),
                            ),
                        )
                    } else {
                        Ok((s.bindings, 0))
                    },
                }
            },
            None => Ok((b, 0)),
        },
        _ => Ok((b, 0)),
    }
}

/// Binds the owner's parameters from a receiver.
pub fn bind_receiver(
    program: &MirProgram,
    owner: &str,
    target: &str,
    decls: &Vec<ParamDecl>,
    receiver: &Ty,
    bindings: &mut Bindings,
) -> (r: Result<usize, MonoError>)
    ensures
        anchors(
            *final(bindings),
            r,
            receiver_bound(program@, owner@, target@, param_decls_view(*decls), receiver@, old(bindings)@),
        ),
{
    proof {
        reveal(receiver_bound);
    }
    if let Ty::Struct(name, args) = receiver {
        let template: &str = nominal_template(name);
        if let Some(declaration) = find_struct(&program.declarations.structs, template) {
            if let Err(e) = bind_ty_args(&declaration.param_decls, args, bindings) {
                return Err(fail_in(owner, cat4("monomorphizing receiver for `", target, "`: ", &e)));
            }
            if !str_eq(template, name) {
                bindings.self_instance = Some((template.to_owned(), receiver.copy()));
                return Ok(owner_covered_prefix(&declaration.param_decls, decls));
            }
        }
    }
    Ok(0)
}

/// The type of a method's receiver parameter.
pub open spec fn receiver_pattern(program: MirProgramModel, target: Seq<char>) -> Option<TyModel> {
    match body_of(program.functions, target) {
        Some(f) => if f.param_types.len() > 0 { Some(f.param_types[0]) } else { None },
        None => None,
    }
}

/// The type of a method's receiver parameter.
pub fn pattern_of_receiver<'a>(program: &'a MirProgram, target: &str) -> (r: Option<&'a Ty>)
    ensures
        match r {
            Some(ty) => receiver_pattern(program@, target@) == Some(ty@),
            None => receiver_pattern(program@, target@) is None,
        },
{
    match find_body(&program.functions, target) {
        Some(f) => {
            assert(f@.param_types.len() == f.param_types@.len());
            if f.param_types.len() > 0 {
                assert(f@.param_types[0] == f.param_types@[0]@);
                Some(&f.param_types[0])
            } else {
                None
            }
        },
        None => None,
    }
}

/// The failure of solving a target's parameters.
pub open spec fn unsolved(
    owner: Seq<char>,
    target: Seq<char>,
    part: Seq<char>,
    e: Seq<char>,
) -> MonoErrorModel {
    failure_in(owner, "monomorphizing `"@ + target + "`"@ + part + ": "@ + e)
}

fn unsolvable(owner: &str, target: &str, part: &str, e: &str) -> (r: MonoError)
    ensures
        r@ == unsolved(owner@, target@, part@, e@),
{
    fail_in(owner, cat6("monomorphizing `", target, "`", part, ": ", e))
}

/// The failure of a target without declaration.
pub open spec fn undeclared(owner: Seq<char>, target: Seq<char>) -> MonoErrorModel {
    failure_in(owner, "callee `"@ + target + "` lacks declaration facts"@)
}

/// Solving the owner's parameters from a receiver: its own arguments first, the
/// declared type of `self` second.
#[verifier::opaque]
pub open spec fn receiver_solved(
    program: MirProgramModel,
    owner: Seq<char>,
    target: Seq<char>,
    decls: Seq<ParamDeclModel>,
    receiver: TyModel,
    b: BindingsModel,
) -> Anchored {
    match receiver_bound(program, owner, target, decls, receiver, b) {
        Err(e) => Err(e),
        Ok(s) => match receiver_pattern(program, target) {
            None => Err(failure_in(owner, "method `"@ + target + "` lacks a receiver type"@)),
            Some(pattern) => {
                let u = unify_ty(pattern, receiver, s.0);
                match u.error {
                    Some(e) => Err(unsolved(owner, target, ""@, e)),
                    None => Ok((u.bindings, s.1)),
                }
            },
        },
    }
}

fn solve_receiver(
    program: &MirProgram,
    owner: &str,
    target: &str,
    decls: &Vec<ParamDecl>,
    receiver: &Ty,
    bindings: &mut Bindings,
) -> (r: Result<usize, MonoError>)
    ensures
        anchors(
            *final(bindings),
            r,
            receiver_solved(program@, owner@, target@, param_decls_view(*decls), receiver@, old(bindings)@),
        ),
{
    proof {
        reveal(receiver_solved);
        reveal_strlit("");
    }
    let covered: usize = match bind_receiver(program, owner, target, decls, receiver, bindings) {
        Ok(n) => n,
        Err(e) => return Err(e),
    };
    let pattern: &Ty = match pattern_of_receiver(program, target) {
        Some(p) => p,
        None => return Err(fail_in(owner, cat3("method `", target, "` lacks a receiver type"))),
    };
    if let Err(e) = unify(pattern, receiver, bindings) {
        return Err(unsolvable(owner, target, "", &e));
    }
    Ok(covered)
}

/// Naming the owner instance from the declared type of `self`, where the receiver
/// did not.
#[verifier::opaque]
pub open spec fn anchored_by_pattern(
    program: MirProgramModel,
    decls: Seq<ParamDeclModel>,
    pattern: Option<TyModel>,
    b: BindingsModel,
    covered: nat,
) -> Anchored {
    match pattern {
        Some(pattern) => match peeled(pattern) {
            TyModel::Struct(template, args) => if b.self_instance is None && args.len() > 0 {
                match subst_ty(peeled(pattern), b) {
                    Err(e) => Err(e),
                    Ok(concrete) => Ok(
                        (
                            BindingsModel { self_instance: Some((template_of(template), concrete)), ..b },
                            match struct_template(program.declarations.structs, template_of(template)) {
                                Some(declaration) => covered_prefix(declaration.param_decls, decls),
                                None => covered,
                            },
                        ),
                    ),
                }
            } else {
                Ok((b, covered))
            },
            _ => Ok((b, covered)),
        },
        None => Ok((b, covered)),
    }
}

fn anchor_by_pattern(
    program: &MirProgram,
    decls: &Vec<ParamDecl>,
    pattern: Option<&Ty>,
    bindings: &mut Bindings,
    covered: usize,
) -> (r: Result<usize, MonoError>)
    ensures
        anchors(
            *final(bindings),
            r,
            anchored_by_pattern(
                program@,
                param_decls_view(*decls),
                found_view(pattern),
                old(bindings)@,
                covered as nat,
            ),
        ),
{
    proof {
        reveal(anchored_by_pattern);
    }
    if let Some(pattern) = pattern {
        let plain: &Ty = peel_refs(pattern);
        if let Ty::Struct(template, args) = plain {
            assert(ty_args_view(*args).len() == args@.len());
            if bindings.self_instance.is_none() && args.len() > 0 {
                let concrete: Ty = match substitute_ty(plain, bindings) {
                    Ok(t) => t,
                    Err(e) => return Err(e),
                };
                let name: &str = nominal_template(template);
                bindings.self_instance = Some((name.to_owned(), concrete));
                if let Some(declaration) = find_struct(&program.declarations.structs, name) {
                    return Ok(owner_covered_prefix(&declaration.param_decls, decls));
                }
            }
        }
    }
    Ok(covered)
}

/// Instance arguments as the arguments of an application.
pub open spec fn applied_args(args: Seq<InstanceArgModel>) -> Seq<TyArgModel> {
    Seq::new(
        args.len(),
        |i: int|
            match args[i] {
                InstanceArgModel::Ty(ty) => TyArgModel::Ty(ty),
                InstanceArgModel::Value(value) => TyArgModel::Val(value),
            },
    )
}

fn apply_args(args: &Vec<InstanceArg>) -> (r: Vec<TyArg>)
    ensures
        ty_args_view(r) == applied_args(instance_args_view(*args)),
{
    let ghost model = instance_args_view(*args);
    let mut out: Vec<TyArg> = Vec::new();
    for i in 0..args.len()
        invariant
            model == instance_args_view(*args),
            out@.len() == i,
            forall|j: int| 0 <= j < i ==> #[trigger] ty_args_view(out)[j] == applied_args(model)[j],
    {
        assert(model[i as int] == args@[i as int]@);
        let ghost before = out;
        match &args[i] {
            InstanceArg::Ty(ty) => out.push(TyArg::Ty(ty.copy())),
            InstanceArg::Value(value) => out.push(TyArg::Val(value.copy())),
        }
        assert forall|j: int| 0 <= j < i + 1 implies #[trigger] ty_args_view(out)[j] == applied_args(model)[j] by {
            if j < i {
                assert(ty_args_view(before)[j] == ty_args_view(out)[j]);
            }
        }
    }
    assert(ty_args_view(out) =~= applied_args(model));
    out
}

/// Naming the owner instance from the solved parameters of a generic receiver,
/// where nothing else did.
#[verifier::opaque]
pub open spec fn anchored_by_receiver(
    program: MirProgramModel,
    decls: Seq<ParamDeclModel>,
    receiver: Option<TyModel>,
    b: BindingsModel,
    covered: nat,
) -> Anchored {
    match receiver {
        Some(TyModel::Struct(name, _)) => match struct_template(
            program.declarations.structs,
            template_of(name),
        ) {
            Some(declaration) => if b.self_instance is None && declaration.param_decls.len() > 0 {
                match declared_arguments(declaration.param_decls, b, template_of(name)) {
                    Err(e) => Err(e),
                    Ok(args) => Ok(
                        (
                            BindingsModel {
                                self_instance: Some(
                                    (
                                        template_of(name),
                                        TyModel::Struct(
                                            instance_name(template_of(name), args),
                                            applied_args(args),
                                        ),
                                    ),
                                ),
                                ..b
                            },
                            covered_prefix(declaration.param_decls, decls),
                        ),
                    ),
                }
            } else {
                Ok((b, covered))
            },
            None => Ok((b, covered)),
        },
        _ => Ok((b, covered)),
    }
}

fn anchor_by_receiver(
    program: &MirProgram,
    decls: &Vec<ParamDecl>,
    receiver: Option<&Ty>,
    bindings: &mut Bindings,
    covered: usize,
) -> (r: Result<usize, MonoError>)
    ensures
        anchors(
            *final(bindings),
            r,
            anchored_by_receiver(
                program@,
                param_decls_view(*decls),
                found_view(receiver),
                old(bindings)@,
                covered as nat,
            ),
        ),
{
    proof {
        reveal(anchored_by_receiver);
    }
    if let Some(Ty::Struct(name, _)) = receiver {
        let template: &str = nominal_template(name);
        if let Some(declaration) = find_struct(&program.declarations.structs, template) {
            assert(declaration@.param_decls.len() == declaration.param_decls@.len());
            if bindings.self_instance.is_none() && declaration.param_decls.len() > 0 {
                let args: Vec<InstanceArg> = match ordered_arguments(
                    &declaration.param_decls,
                    bindings,
                    template,
                ) {
                    Ok(args) => args,
                    Err(e) => return Err(e),
                };
                let applied: Ty = Ty::Struct(instance_symbol(template, &args), apply_args(&args));
                bindings.self_instance = Some((template.to_owned(), applied));
                return Ok(owner_covered_prefix(&declaration.param_decls, decls));
            }
        }
    }
    Ok(covered)
}

/// The arguments past the first `n`.
pub open spec fn without_first(args: Seq<InstanceArgModel>, n: nat) -> Seq<InstanceArgModel> {
    if n <= args.len() { args.skip(n as int) } else { Seq::empty() }
}

/// Drops the first `n` arguments.
pub fn drop_first(args: &Vec<InstanceArg>, n: usize) -> (r: Vec<InstanceArg>)
    ensures
        instance_args_view(r) == without_first(instance_args_view(*args), n as nat),
{
    let ghost model = instance_args_view(*args);
    assert(model.len() == args@.len());
    let mut out: Vec<InstanceArg> = Vec::new();
    let mut i: usize = n;
    while i < args.len()
        invariant
            model == instance_args_view(*args),
            n <= i,
            i <= args@.len() || i == n,
            out@.len() == i - n,
            forall|j: int| 0 <= j < i - n ==> #[trigger] instance_args_view(out)[j] == model[n + j],
        decreases args@.len() - i,
    {
        let ghost before = out;
        assert(model[i as int] == args@[i as int]@);
        out.push(args[i].copy());
        assert forall|j: int| 0 <= j < i + 1 - n implies #[trigger] instance_args_view(out)[j] == model[n + j] by {
            if j < i - n {
                assert(instance_args_view(before)[j] == instance_args_view(out)[j]);
            }
        }
        i = i + 1;
    }
    assert(instance_args_view(out) =~= without_first(model, n as nat));
    out
}

/// Solved bindings and the generic arguments of the instance.
pub type Solution = Result<(BindingsModel, Seq<InstanceArgModel>), MonoErrorModel>;

/// Whether the outcome of a step is the specified solution.
pub open spec fn solves(bindings: Bindings, r: Result<Vec<InstanceArg>, MonoError>, wanted: Solution) -> bool {
    match r {
        Ok(args) => wanted == Ok::<(BindingsModel, Seq<InstanceArgModel>), MonoErrorModel>(
            (bindings@, instance_args_view(args)),
        ),
        Err(e) => wanted == Err::<(BindingsModel, Seq<InstanceArgModel>), MonoErrorModel>(e@),
    }
}

/// Naming the owner instance and listing the method's own arguments: those that
/// restate the owner's are part of the owner's name.
#[verifier::opaque]
pub open spec fn own_arguments(
    program: MirProgramModel,
    target: Seq<char>,
    decls: Seq<ParamDeclModel>,
    pattern: Option<TyModel>,
    receiver: Option<TyModel>,
    b: BindingsModel,
    covered: nat,
) -> Solution {
    match anchored_by_pattern(program, decls, pattern, b, covered) {
        Err(e) => Err(e),
        Ok(s) => match anchored_by_receiver(program, decls, receiver, s.0, s.1) {
            Err(e) => Err(e),
            Ok(t) => match declared_arguments(decls, t.0, target) {
                Err(e) => Err(e),
                Ok(args) => Ok((t.0, without_first(args, t.1))),
            },
        },
    }
}

fn list_own_arguments(
    program: &MirProgram,
    target: &str,
    decls: &Vec<ParamDecl>,
    pattern: Option<&Ty>,
    receiver: Option<&Ty>,
    bindings: &mut Bindings,
    covered: usize,
) -> (r: Result<Vec<InstanceArg>, MonoError>)
    ensures
        solves(
            *final(bindings),
            r,
            own_arguments(
                program@,
                target@,
                param_decls_view(*decls),
                found_view(pattern),
                found_view(receiver),
                old(bindings)@,
                covered as nat,
            ),
        ),
{
    proof {
        reveal(own_arguments);
    }
    let covered: usize = match anchor_by_pattern(program, decls, pattern, bindings, covered) {
        Ok(n) => n,
        Err(e) => return Err(e),
    };
    let covered: usize = match anchor_by_receiver(program, decls, receiver, bindings, covered) {
        Ok(n) => n,
        Err(e) => return Err(e),
    };
    match ordered_arguments(decls, bindings, target) {
        Ok(args) => Ok(drop_first(&args, covered)),
        Err(e) => Err(e),
    }
}

/// Solving a result against the declared one, where there is a result.
pub open spec fn result_solved(
    owner: Seq<char>,
    target: Seq<char>,
    declared: TyModel,
    result: Option<TyModel>,
    b: BindingsModel,
) -> Bound {
    match result {
        None => Bound { bindings: b, error: None },
        Some(result) => {
            let u = unify_result_ty(declared, result, b);
            Bound {
                bindings: u.bindings,
                error: match u.error {
                    Some(e) => Some(unsolved(owner, target, " return"@, e)),
                    None => None,
                },
            }
        },
    }
}

fn solve_result(owner: &str, target: &str, declared: &Ty, result: Option<&Ty>, bindings: &mut Bindings) -> (r: Result<
    (),
    MonoError,
>)
    ensures
        bound_view(*final(bindings), r) == result_solved(
            owner@,
            target@,
            declared@,
            found_view(result),
            old(bindings)@,
        ),
{
    if let Some(result) = result {
        if let Err(e) = unify_result(declared, result, bindings) {
            return Err(unsolvable(owner, target, " return", &e));
        }
    }
    Ok(())
}

/// A nullary method call on a concrete receiver: the solved bindings, the method's
/// own arguments and its result type.
pub type ReceiverCall = Result<(BindingsModel, Seq<InstanceArgModel>, TyModel), MonoErrorModel>;

/// Solving a nullary method call on a concrete receiver.
#[verifier::opaque]
pub open spec fn receiver_call(
    program: MirProgramModel,
    owner: Seq<char>,
    target: Seq<char>,
    receiver: TyModel,
    result: Option<TyModel>,
) -> ReceiverCall {
    match facts_of(program.declarations.functions, target) {
        None => Err(undeclared(owner, target)),
        Some(declaration) => match receiver_solved(
            program,
            owner,
            target,
            declaration.param_decls,
            receiver,
            fresh_bindings(program),
        ) {
            Err(e) => Err(e),
            Ok(s) => {
                let u = result_solved(owner, target, declaration.ret_ty, result, s.0);
                if u.error is Some {
                    Err(u.error->Some_0)
                } else {
                    let d = defaults(declaration.param_decls, declaration.param_decls.len(), u.bindings);
                    if d.error is Some {
                        Err(d.error->Some_0)
                    } else {
                        match own_arguments(
                            program,
                            target,
                            declaration.param_decls,
                            receiver_pattern(program, target),
                            Some(receiver),
                            d.bindings,
                            s.1,
                        ) {
                            Err(e) => Err(e),
                            Ok(t) => match subst_ty(declaration.ret_ty, t.0) {
                                Err(e) => Err(unsolved(owner, target, " result"@, e.construct)),
                                Ok(ty) => Ok((t.0, t.1, ty)),
                            },
                        }
                    }
                }
            },
        },
    }
}

/// The model of a solved nullary method call.
pub open spec fn receiver_call_view(r: Result<(Bindings, Vec<InstanceArg>, Ty), MonoError>) -> ReceiverCall {
    match r {
        Ok(s) => Ok((s.0@, instance_args_view(s.1), s.2@)),
        Err(e) => Err(e@),
    }
}

/// Solves a nullary method call on a concrete receiver, where iterator and
/// subscript instructions name the receiver by its type.
pub fn infer_receiver_call(program: &MirProgram, owner: &str, target: &str, receiver: &Ty, result: Option<&Ty>) -> (r: Result<
    (Bindings, Vec<InstanceArg>, Ty),
    MonoError,
>)
    ensures
        receiver_call_view(r) == receiver_call(program@, owner@, target@, receiver@, found_view(result)),
{
    proof {
        reveal(receiver_call);
    }
    let declaration: &MirFunctionDeclaration = match find_facts(&program.declarations.functions, target) {
        Some(d) => d,
        None => return Err(fail_in(owner, cat3("callee `", target, "` lacks declaration facts"))),
    };
    let mut bindings: Bindings = base_bindings(program);
    assert(declaration@.param_decls.len() == declaration.param_decls@.len());
    let covered: usize = match solve_receiver(
        program,
        owner,
        target,
        &declaration.param_decls,
        receiver,
        &mut bindings,
    ) {
        Ok(n) => n,
        Err(e) => return Err(e),
    };
    if let Err(e) = solve_result(owner, target, &declaration.ret_ty, result, &mut bindings) {
        return Err(e);
    }
    if let Err(e) = apply_defaults(&declaration.param_decls, &mut bindings) {
        return Err(e);
    }
    let args: Vec<InstanceArg> = match list_own_arguments(
        program,
        target,
        &declaration.param_decls,
        pattern_of_receiver(program, target),
        Some(receiver),
        &mut bindings,
        covered,
    ) {
        Ok(args) => args,
        Err(e) => return Err(e),
    };
    match substitute_ty(&declaration.ret_ty, &bindings) {
        Ok(ty) => Ok((bindings, args, ty)),
        Err(e) => Err(unsolvable(owner, target, " result", &e.construct)),
    }
}

/// What is known of the registers of a caller: the constants, and the callables
/// that are statically named.
#[derive(Debug)]
pub struct CallFacts {
    pub constants: IdMap<CtValue>,
    pub targets: IdMap<(String, bool)>,
}

/// Mathematical model of [`CallFacts`].
#[verifier::ext_equal]
pub struct FactsModel {
    pub constants: Map<u32, CtValueModel>,
    pub targets: Map<u32, TargetModel>,
}

impl View for CallFacts {
    type V = FactsModel;

    open spec fn view(&self) -> FactsModel {
        FactsModel { constants: id_values_view(self.constants@), targets: target_map_view(self.targets@) }
    }
}

impl CallFacts {
    /// The callable that a register holds.
    pub fn target(&self, reg: Reg) -> (r: Option<&(String, bool)>)
        ensures
            match r {
                Some(t) => self@.targets.dom().contains(reg.0) && self@.targets[reg.0] == (t.0@, t.1),
                None => !self@.targets.dom().contains(reg.0),
            },
    {
        self.targets.get(reg.0)
    }
}

/// Whether an argument of this type is a compile-time input of the instance: a
/// callable whose contract is generic. Others carry their environment at run time.
pub open spec fn retained_callable(ty: TyModel) -> bool {
    match peeled(ty) {
        TyModel::GenericFunc { .. } => true,
        TyModel::Param { callable_bound, .. } => callable_bound is Some,
        _ => false,
    }
}

/// Whether an argument of this type is a compile-time input of the instance.
pub fn is_retained_callable(ty: &Ty) -> (r: bool)
    ensures
        r == retained_callable(ty@),
{
    match peel_refs(ty) {
        Ty::GenericFunc { .. } => true,
        Ty::Param { callable_bound, .. } => callable_bound.is_some(),
        _ => false,
    }
}

/// A callable whose environment a direct call would lose.
pub open spec fn has_captures(owner: Seq<char>, callable: Seq<char>) -> MonoErrorModel {
    failure_in(owner, "generic retained callable `"@ + callable + "` has captures"@)
}

/// A call under inference: whose it is, and what it calls.
#[verifier::ext_equal]
pub struct CallModel {
    pub owner: Seq<char>,
    pub target: Seq<char>,
    pub caller: MirFunctionModel,
    pub args: Seq<Reg>,
    pub kwargs: Seq<(Seq<char>, Reg)>,
}

/// A call under inference: whose it is, and what it calls.
pub struct CallSite<'a> {
    pub owner: &'a str,
    pub target: &'a str,
    pub caller: &'a MirFunction,
    pub args: &'a Vec<Reg>,
    pub kwargs: &'a Vec<(String, Reg)>,
}

impl<'a> View for CallSite<'a> {
    type V = CallModel;

    open spec fn view(&self) -> CallModel {
        CallModel {
            owner: self.owner@,
            target: self.target@,
            caller: self.caller@,
            args: self.args@,
            kwargs: string_regs_view(*self.kwargs),
        }
    }
}

/// The register that fills a parameter.
pub open spec fn slot_reg(slot: ArgSlot, call: CallModel) -> Option<Reg> {
    match slot {
        ArgSlot::Positional(i) => Some(call.args[i as int]),
        ArgSlot::Keyword(i) => Some(call.kwargs[i as int].1),
        ArgSlot::Default => None,
    }
}

/// Bindings solved so far, and the callables among the arguments.
#[verifier::ext_equal]
pub struct ArgScan {
    pub bindings: BindingsModel,
    pub callables: Seq<InstanceArgModel>,
}

/// The pattern that an argument is solved against: explicit values may already
/// resolve it.
pub open spec fn argument_pattern(declared: TyModel, b: BindingsModel) -> TyModel {
    match subst_ty(declared, b) {
        Ok(ty) => ty,
        Err(_) => declared,
    }
}

/// Solving a declared type against an argument. A pattern without parameters is not
/// compared.
pub open spec fn argument_unified(declared: TyModel, actual: TyModel, b: BindingsModel) -> Solved {
    let pattern = argument_pattern(declared, b);
    if symbolic(pattern) { unify_ty(pattern, actual, b) } else { Solved { bindings: b, error: None } }
}

fn unify_argument(declared: &Ty, actual: &Ty, bindings: &mut Bindings) -> (r: Result<(), String>)
    ensures
        solved_view(*final(bindings), r) == argument_unified(declared@, actual@, old(bindings)@),
{
    let pattern: Ty = match substitute_ty(declared, bindings) {
        Ok(ty) => ty,
        Err(_) => declared.copy(),
    };
    if is_symbolic(&pattern) {
        unify(&pattern, actual, bindings)
    } else {
        Ok(())
    }
}

/// Recording a callable argument, where the parameter retains one.
pub open spec fn callable_recorded(
    call: CallModel,
    facts: FactsModel,
    declared: TyModel,
    name: Seq<char>,
    reg: Reg,
    s: ArgScan,
) -> Result<ArgScan, MonoErrorModel> {
    if retained_callable(declared) && facts.targets.dom().contains(reg.0) {
        let found = facts.targets[reg.0];
        if !found.1 {
            Err(has_captures(call.owner, found.0))
        } else {
            Ok(
                ArgScan {
                    bindings: BindingsModel {
                        values: s.bindings.values.insert(name, CtValueModel::Str(found.0)),
                        callables: s.bindings.callables.insert(name, found.0),
                        ..s.bindings
                    },
                    callables: s.callables.push(InstanceArgModel::Value(CtValueModel::Str(found.0))),
                },
            )
        }
    } else {
        Ok(s)
    }
}

/// Solving one parameter against the argument that fills it.
#[verifier::opaque]
pub open spec fn slot_solved(
    call: CallModel,
    facts: FactsModel,
    declaration: MirFunctionDeclarationModel,
    slot: ArgSlot,
    index: int,
    s: ArgScan,
) -> Result<ArgScan, MonoErrorModel> {
    match slot_reg(slot, call) {
        None => Ok(s),
        Some(reg) => match table_get(call.caller.reg_types, reg.0) {
            None => Err(untyped_register(reg, call.owner)),
            Some(actual) => if index >= declaration.param_types.len() || index >= declaration.param_names.len() {
                Err(failure_in(call.owner, "callee `"@ + call.target + "` lacks the type of a parameter"@))
            } else {
                let declared = declaration.param_types[index];
                let u = argument_unified(declared, actual, s.bindings);
                match u.error {
                    Some(e) => Err(unsolved(call.owner, call.target, ""@, e)),
                    None => callable_recorded(
                        call,
                        facts,
                        declared,
                        declaration.param_names[index],
                        reg,
                        ArgScan { bindings: u.bindings, ..s },
                    ),
                }
            },
        },
    }
}

/// Solving the first `n` parameters.
pub open spec fn slots_solved(
    call: CallModel,
    facts: FactsModel,
    declaration: MirFunctionDeclarationModel,
    slots: Seq<ArgSlot>,
    n: nat,
    b: BindingsModel,
) -> Result<ArgScan, MonoErrorModel>
    decreases n,
{
    if n == 0 {
        Ok(ArgScan { bindings: b, callables: Seq::empty() })
    } else {
        match slots_solved(call, facts, declaration, slots, (n - 1) as nat, b) {
            Err(e) => Err(e),
            Ok(s) => slot_solved(call, facts, declaration, slots[n - 1], n - 1, s),
        }
    }
}

proof fn lemma_slots_error(
    call: CallModel,
    facts: FactsModel,
    declaration: MirFunctionDeclarationModel,
    slots: Seq<ArgSlot>,
    n: nat,
    m: nat,
    b: BindingsModel,
)
    requires
        n <= m,
        slots_solved(call, facts, declaration, slots, n, b) is Err,
    ensures
        slots_solved(
            call,
            facts,
            declaration,
            slots,
            m,
            b,
        ) == slots_solved(call, facts, declaration, slots, n, b),
    decreases m,
{
    if n < m {
        lemma_slots_error(call, facts, declaration, slots, n, (m - 1) as nat, b);
    }
}

/// Whether the outcome of a step is the specified scan.
pub open spec fn scans(
    bindings: Bindings,
    callables: Vec<InstanceArg>,
    r: Result<(), MonoError>,
    wanted: Result<ArgScan, MonoErrorModel>,
) -> bool {
    match r {
        Ok(()) => wanted == Ok::<ArgScan, MonoErrorModel>(
            ArgScan { bindings: bindings@, callables: instance_args_view(callables) },
        ),
        Err(e) => wanted == Err::<ArgScan, MonoErrorModel>(e@),
    }
}

fn solve_slot(
    call: &CallSite<'_>,
    facts: &CallFacts,
    declaration: &MirFunctionDeclaration,
    slot: ArgSlot,
    index: usize,
    bindings: &mut Bindings,
    callables: &mut Vec<InstanceArg>,
) -> (r: Result<(), MonoError>)
    requires
        slot_exists(slot, call.args@.len(), call.kwargs@.len()),
    ensures
        scans(
            *final(bindings),
            *final(callables),
            r,
            slot_solved(
                call@,
                facts@,
                declaration@,
                slot,
                index as int,
                ArgScan { bindings: old(bindings)@, callables: instance_args_view(*old(callables)) },
            ),
        ),
{
    proof {
        reveal(slot_solved);
        reveal_strlit("");
    }
    let reg: Reg = match slot {
        ArgSlot::Positional(i) => call.args[i],
        ArgSlot::Keyword(i) => {
            assert(call@.kwargs[i as int] == (call.kwargs@[i as int].0@, call.kwargs@[i as int].1));
            call.kwargs[i].1
        },
        ArgSlot::Default => return Ok(()),
    };
    let actual: &Ty = match reg_ty(call.caller, reg, call.owner) {
        Ok(ty) => ty,
        Err(e) => return Err(e),
    };
    assert(declaration@.param_types.len() == declaration.param_types@.len());
    assert(declaration@.param_names.len() == declaration.param_names@.len());
    if index >= declaration.param_types.len() || index >= declaration.param_names.len() {
        return Err(fail_in(call.owner, cat3("callee `", call.target, "` lacks the type of a parameter")));
    }
    let declared: &Ty = &declaration.param_types[index];
    let name: &String = &declaration.param_names[index];
    assert(declaration@.param_types[index as int] == declared@);
    assert(declaration@.param_names[index as int] == name@);
    if let Err(e) = unify_argument(declared, actual, bindings) {
        return Err(unsolvable(call.owner, call.target, "", &e));
    }
    if is_retained_callable(declared) {
        if let Some(found) = facts.target(reg) {
            if !found.1 {
                return Err(
                    fail_in(call.owner, cat3("generic retained callable `", &found.0, "` has captures"))
                );
            }
            let ghost before = instance_args_view(*callables);
            bindings.set_value(name.clone(), CtValue::Str(found.0.clone()));
            bindings.set_callable(name.clone(), found.0.clone());
            callables.push(InstanceArg::Value(CtValue::Str(found.0.clone())));
            assert(instance_args_view(*callables) =~= before.push(
                InstanceArgModel::Value(CtValueModel::Str(found.0@)),
            ));
        }
    }
    Ok(())
}

fn solve_slots(
    call: &CallSite<'_>,
    facts: &CallFacts,
    declaration: &MirFunctionDeclaration,
    slots: &Vec<ArgSlot>,
    bindings: &mut Bindings,
    callables: &mut Vec<InstanceArg>,
) -> (r: Result<(), MonoError>)
    requires
        instance_args_view(*old(callables)).len() == 0,
        forall|i: int|
            0 <= i < slots@.len() ==> slot_exists(#[trigger] slots@[i], call.args@.len(), call.kwargs@.len()),
    ensures
        scans(
            *final(bindings),
            *final(callables),
            r,
            slots_solved(call@, facts@, declaration@, slots@, slots@.len(), old(bindings)@),
        ),
{
    let ghost b = bindings@;
    assert(instance_args_view(*callables) =~= Seq::empty());
    for i in 0..slots.len()
        invariant
            b == old(bindings)@,
            forall|k: int|
                0 <= k < slots@.len() ==> slot_exists(
                    #[trigger] slots@[k],
                    call.args@.len(),
                    call.kwargs@.len(),
                ),
            slots_solved(call@, facts@, declaration@, slots@, i as nat, b) == Ok::<ArgScan, MonoErrorModel>(
                ArgScan { bindings: bindings@, callables: instance_args_view(*callables) },
            ),
    {
        match solve_slot(call, facts, declaration, slots[i], i, bindings, callables) {
            Ok(()) => {
                assert(slots_solved(call@, facts@, declaration@, slots@, (i + 1) as nat, b) == Ok::<
                    ArgScan,
                    MonoErrorModel,
                >(ArgScan { bindings: bindings@, callables: instance_args_view(*callables) }));
            },
            Err(e) => {
                proof {
                    assert(slots_solved(call@, facts@, declaration@, slots@, (i + 1) as nat, b) == Err::<
                        ArgScan,
                        MonoErrorModel,
                    >(e@));
                    lemma_slots_error(
                        call@,
                        facts@,
                        declaration@,
                        slots@,
                        (i + 1) as nat,
                        slots@.len(),
                        b,
                    );
                }
                return Err(e);
            },
        }
    }
    Ok(())
}

/// Solving the element of a variadic parameter against the first `n` arguments that
/// it collects.
pub open spec fn pack_solved(
    call: CallModel,
    element: TyModel,
    overflow: Seq<usize>,
    n: nat,
    b: BindingsModel,
) -> Bound
    decreases n,
{
    if n == 0 {
        Bound { bindings: b, error: None }
    } else {
        let s = pack_solved(call, element, overflow, (n - 1) as nat, b);
        let reg = call.args[overflow[n - 1] as int];
        if s.error is Some {
            s
        } else {
            match table_get(call.caller.reg_types, reg.0) {
                None => Bound { error: Some(untyped_register(reg, call.owner)), ..s },
                Some(actual) => {
                    let u = unify_ty(element, actual, s.bindings);
                    Bound {
                        bindings: u.bindings,
                        error: match u.error {
                            Some(e) => Some(unsolved(call.owner, call.target, " pack"@, e)),
                            None => None,
                        },
                    }
                },
            }
        }
    }
}

proof fn lemma_pack_error(
    call: CallModel,
    element: TyModel,
    overflow: Seq<usize>,
    n: nat,
    m: nat,
    b: BindingsModel,
)
    requires
        n <= m,
        pack_solved(call, element, overflow, n, b).error is Some,
    ensures
        pack_solved(call, element, overflow, m, b) == pack_solved(call, element, overflow, n, b),
    decreases m,
{
    if n < m {
        lemma_pack_error(call, element, overflow, n, (m - 1) as nat, b);
    }
}

fn solve_pack(
    call: &CallSite<'_>,
    element: &Ty,
    overflow: &Vec<usize>,
    bindings: &mut Bindings,
) -> (r: Result<(), MonoError>)
    requires
        forall|i: int| 0 <= i < overflow@.len() ==> #[trigger] overflow@[i] < call.args@.len(),
    ensures
        bound_view(*final(bindings), r) == pack_solved(
            call@,
            element@,
            overflow@,
            overflow@.len(),
            old(bindings)@,
        ),
{
    let ghost b = bindings@;
    for i in 0..overflow.len()
        invariant
            b == old(bindings)@,
            forall|k: int| 0 <= k < overflow@.len() ==> #[trigger] overflow@[k] < call.args@.len(),
            pack_solved(
                call@,
                element@,
                overflow@,
                i as nat,
                b,
            ) == (Bound { bindings: bindings@, error: None }),
    {
        let reg: Reg = call.args[overflow[i]];
        let outcome: Result<(), MonoError> = match reg_ty(call.caller, reg, call.owner) {
            Ok(actual) => match unify(element, actual, bindings) {
                Ok(()) => Ok(()),
                Err(e) => Err(unsolvable(call.owner, call.target, " pack", &e)),
            },
            Err(e) => Err(e),
        };
        if let Err(e) = outcome {
            proof {
                assert(pack_solved(call@, element@, overflow@, (i + 1) as nat, b) =~= (Bound {
                    bindings: bindings@,
                    error: Some(e@),
                }));
                lemma_pack_error(call@, element@, overflow@, (i + 1) as nat, overflow@.len(), b);
            }
            return Err(e);
        }
        assert(
            pack_solved(
                call@,
                element@,
                overflow@,
                (i + 1) as nat,
                b,
            ) =~= (Bound { bindings: bindings@, error: None })
        );
    }
    Ok(())
}

/// The element type of a variadic parameter that no earlier phase made concrete.
pub open spec fn open_pack(declaration: MirFunctionDeclarationModel) -> Option<TyModel> {
    match declaration.variadic {
        Some(element) => if element is RuntimePack || element is Tuple { None } else { Some(element) },
        None => None,
    }
}

/// The element type of a variadic parameter that no earlier phase made concrete.
pub fn open_pack_of(declaration: &MirFunctionDeclaration) -> (r: Option<&Ty>)
    ensures
        found_view(r) == open_pack(declaration@),
{
    match &declaration.variadic {
        Some(element) => match element {
            Ty::RuntimePack(_) => None,
            Ty::Tuple(_) => None,
            _ => Some(element),
        },
        None => None,
    }
}

/// Solving the arguments of a call: each parameter from what fills it, and the
/// element of an open pack from what it collects.
#[verifier::opaque]
pub open spec fn arguments_solved(
    call: CallModel,
    facts: FactsModel,
    declaration: MirFunctionDeclarationModel,
    slots: SlotsModel,
    b: BindingsModel,
) -> Result<ArgScan, MonoErrorModel> {
    match slots_solved(call, facts, declaration, slots.slots, slots.slots.len(), b) {
        Err(e) => Err(e),
        Ok(s) => match open_pack(declaration) {
            None => Ok(s),
            Some(element) => {
                let n = slots.positional_overflow.len();
                let p = pack_solved(call, element, slots.positional_overflow, n, s.bindings);
                match p.error {
                    Some(e) => Err(e),
                    None => Ok(
                        ArgScan {
                            bindings: BindingsModel { variadic_arity: Some(n as usize), ..p.bindings },
                            ..s
                        },
                    ),
                }
            },
        },
    }
}

fn solve_arguments(
    call: &CallSite<'_>,
    facts: &CallFacts,
    declaration: &MirFunctionDeclaration,
    slots: &CallSlots,
    bindings: &mut Bindings,
    callables: &mut Vec<InstanceArg>,
) -> (r: Result<(), MonoError>)
    requires
        instance_args_view(*old(callables)).len() == 0,
        slots_exist(slots@, call.args@.len(), call.kwargs@.len()),
    ensures
        scans(
            *final(bindings),
            *final(callables),
            r,
            arguments_solved(call@, facts@, declaration@, slots@, old(bindings)@),
        ),
{
    proof {
        reveal(arguments_solved);
    }
    if let Err(e) = solve_slots(call, facts, declaration, &slots.slots, bindings, callables) {
        return Err(e);
    }
    if let Some(element) = open_pack_of(declaration) {
        if let Err(e) = solve_pack(call, element, &slots.positional_overflow, bindings) {
            return Err(e);
        }
        bindings.variadic_arity = Some(slots.positional_overflow.len());
    }
    Ok(())
}

/// Solving what a call states outright: the receiver, the explicit compile-time
/// arguments, and the defaults of the parameters that nothing else solved.
#[verifier::opaque]
pub open spec fn stated_solved(
    program: MirProgramModel,
    call: CallModel,
    facts: FactsModel,
    declaration: MirFunctionDeclarationModel,
    receiver: Option<TyModel>,
    param_args: Seq<MirParamArgModel>,
) -> Anchored {
    let start: Anchored = match receiver {
        None => Ok((fresh_bindings(program), 0)),
        Some(ty) => receiver_solved(
            program,
            call.owner,
            call.target,
            declaration.param_decls,
            ty,
            fresh_bindings(program),
        ),
    };
    match start {
        Err(e) => Err(e),
        Ok(s) => {
            let w = explicit_walk(
                declaration.param_decls,
                param_args,
                param_args.len(),
                facts.constants,
                call.target,
                s.0,
            );
            if w.error is Some {
                Err(w.error->Some_0)
            } else {
                let d = defaults(declaration.param_decls, declaration.param_decls.len(), w.bindings);
                match d.error {
                    Some(e) => Err(e),
                    None => Ok((d.bindings, s.1)),
                }
            }
        },
    }
}

fn solve_stated(
    program: &MirProgram,
    call: &CallSite<'_>,
    facts: &CallFacts,
    declaration: &MirFunctionDeclaration,
    receiver: Option<&Ty>,
    param_args: &Vec<MirParamArg>,
    bindings: &mut Bindings,
) -> (r: Result<usize, MonoError>)
    requires
        old(bindings)@ == fresh_bindings(program@),
    ensures
        anchors(
            *final(bindings),
            r,
            stated_solved(
                program@,
                call@,
                facts@,
                declaration@,
                found_view(receiver),
                param_args_view(*param_args),
            ),
        ),
{
    proof {
        reveal(stated_solved);
    }
    assert(declaration@.param_decls.len() == declaration.param_decls@.len());
    assert(param_args_view(*param_args).len() == param_args@.len());
    let mut covered: usize = 0;
    if let Some(ty) = receiver {
        covered = match solve_receiver(
            program,
            call.owner,
            call.target,
            &declaration.param_decls,
            ty,
            bindings,
        ) {
            Ok(n) => n,
            Err(e) => return Err(e),
        };
    }
    if let Err(e) = bind_explicit_value_arguments(
        &declaration.param_decls,
        param_args,
        &facts.constants,
        bindings,
        call.target,
    ) {
        return Err(e);
    }
    if let Err(e) = apply_defaults(&declaration.param_decls, bindings) {
        return Err(e);
    }
    Ok(covered)
}

fn count_value(n: usize) -> (r: i64)
    ensures
        r == wrap64(n as int),
{
    let bits: u64 = n as u64;
    if bits < 0x8000_0000_0000_0000 {
        bits as i64
    } else {
        (bits - 0x8000_0000_0000_0000) as i64 + i64::MIN
    }
}

/// The generic arguments of the instance that a call selects: the method's own, the
/// arity of an open pack, the callables, and the parameters that a type spells.
pub open spec fn call_arguments(
    declaration: MirFunctionDeclarationModel,
    own: Seq<InstanceArgModel>,
    overflow: nat,
    callables: Seq<InstanceArgModel>,
    b: BindingsModel,
) -> Seq<InstanceArgModel> {
    own + (if open_pack(declaration) is Some {
        seq![InstanceArgModel::Value(CtValueModel::Int(wrap64(overflow as int)))]
    } else {
        Seq::empty()
    }) + callables + sugar_args(declaration.param_types, declaration.param_decls, b)
}

fn push_all(args: &mut Vec<InstanceArg>, more: &Vec<InstanceArg>)
    ensures
        instance_args_view(*final(args)) == instance_args_view(*old(args)) + instance_args_view(*more),
{
    let ghost start = instance_args_view(*args);
    let ghost model = instance_args_view(*more);
    assert(start =~= start + model.take(0));
    for i in 0..more.len()
        invariant
            model == instance_args_view(*more),
            instance_args_view(*args) == start + model.take(i as int),
    {
        let ghost before = instance_args_view(*args);
        assert(model[i as int] == more@[i as int]@);
        args.push(more[i].copy());
        assert(instance_args_view(*args) =~= before.push(model[i as int]));
        assert(model.take(i + 1) =~= model.take(i as int).push(model[i as int]));
        assert(instance_args_view(*args) =~= start + model.take(i + 1));
    }
    assert(model.take(model.len() as int) =~= model);
}

fn assemble_arguments(
    declaration: &MirFunctionDeclaration,
    own: Vec<InstanceArg>,
    overflow: usize,
    callables: &Vec<InstanceArg>,
    bindings: &Bindings,
) -> (r: Vec<InstanceArg>)
    ensures
        instance_args_view(r) == call_arguments(
            declaration@,
            instance_args_view(own),
            overflow as nat,
            instance_args_view(*callables),
            bindings@,
        ),
{
    let ghost start = instance_args_view(own);
    let mut args: Vec<InstanceArg> = own;
    if open_pack_of(declaration).is_some() {
        args.push(InstanceArg::Value(CtValue::Int(count_value(overflow))));
        assert(instance_args_view(args) =~= start + seq![
            InstanceArgModel::Value(CtValueModel::Int(wrap64(overflow as int))),
        ]);
    } else {
        assert(instance_args_view(args) =~= start + Seq::<InstanceArgModel>::empty());
    }
    push_all(&mut args, callables);
    push_sugar_arguments(declaration, bindings, &mut args);
    args
}

/// The type of the receiver register of a call, without references.
pub open spec fn call_receiver(
    call: CallModel,
    receiver: Option<Reg>,
) -> Result<Option<TyModel>, MonoErrorModel> {
    match receiver {
        None => Ok(None),
        Some(reg) => match table_get(call.caller.reg_types, reg.0) {
            None => Err(untyped_register(reg, call.owner)),
            Some(ty) => Ok(Some(peeled(ty))),
        },
    }
}

/// Solving a call once its arguments are matched to parameters.
#[verifier::opaque]
pub open spec fn matched_call(
    program: MirProgramModel,
    call: CallModel,
    facts: FactsModel,
    declaration: MirFunctionDeclarationModel,
    receiver: Option<TyModel>,
    result: Option<TyModel>,
    slots: SlotsModel,
    b: BindingsModel,
    covered: nat,
) -> Solution {
    match arguments_solved(call, facts, declaration, slots, b) {
        Err(e) => Err(e),
        Ok(s) => {
            let u = result_solved(call.owner, call.target, declaration.ret_ty, result, s.bindings);
            if u.error is Some {
                Err(u.error->Some_0)
            } else {
                match own_arguments(
                    program,
                    call.target,
                    declaration.param_decls,
                    if receiver is Some { receiver_pattern(program, call.target) } else { None },
                    receiver,
                    u.bindings,
                    covered,
                ) {
                    Err(e) => Err(e),
                    Ok(t) => Ok(
                        (
                            t.0,
                            call_arguments(
                                declaration,
                                t.1,
                                slots.positional_overflow.len(),
                                s.callables,
                                t.0,
                            ),
                        ),
                    ),
                }
            }
        },
    }
}

fn solve_matched(
    program: &MirProgram,
    call: &CallSite<'_>,
    facts: &CallFacts,
    declaration: &MirFunctionDeclaration,
    receiver: Option<&Ty>,
    result: Option<&Ty>,
    slots: &CallSlots,
    bindings: &mut Bindings,
    covered: usize,
) -> (r: Result<Vec<InstanceArg>, MonoError>)
    requires
        slots_exist(slots@, call.args@.len(), call.kwargs@.len()),
    ensures
        solves(
            *final(bindings),
            r,
            matched_call(
                program@,
                call@,
                facts@,
                declaration@,
                found_view(receiver),
                found_view(result),
                slots@,
                old(bindings)@,
                covered as nat,
            ),
        ),
{
    proof {
        reveal(matched_call);
    }
    let mut callables: Vec<InstanceArg> = Vec::new();
    if let Err(e) = solve_arguments(call, facts, declaration, slots, bindings, &mut callables) {
        return Err(e);
    }
    if let Err(e) = solve_result(call.owner, call.target, &declaration.ret_ty, result, bindings) {
        return Err(e);
    }
    let pattern: Option<&Ty> = if receiver.is_some() { pattern_of_receiver(program, call.target) } else { None };
    match list_own_arguments(
        program,
        call.target,
        &declaration.param_decls,
        pattern,
        receiver,
        bindings,
        covered,
    ) {
        Ok(own) => Ok(
            assemble_arguments(declaration, own, slots.positional_overflow.len(), &callables, bindings),
        ),
        Err(e) => Err(e),
    }
}

/// The result type that a call is solved against. A constructor's destination is
/// its receiver and no result.
pub open spec fn call_result(call: CallModel, receiver: Option<Reg>, dest: Reg) -> Option<TyModel> {
    if receiver == Some(dest) { None } else { table_get(call.caller.reg_types, dest.0) }
}

/// Solving a call: the bindings of the instance and its generic arguments.
#[verifier::opaque]
pub open spec fn inferred_call<R: CallRules>(
    rules: R,
    program: MirProgramModel,
    call: CallModel,
    facts: FactsModel,
    receiver: Option<Reg>,
    dest: Reg,
    param_args: Seq<MirParamArgModel>,
) -> Solution {
    match facts_of(program.declarations.functions, call.target) {
        None => Err(undeclared(call.owner, call.target)),
        Some(declaration) => match call_receiver(call, receiver) {
            Err(e) => Err(e),
            Ok(ty) => match stated_solved(program, call, facts, declaration, ty, param_args) {
                Err(e) => Err(e),
                Ok(s) => match rules.call_slots(declaration, call.args.len(), call.kwargs) {
                    Err(e) => Err(
                        failure_in(
                            call.owner,
                            "binding call to `"@ + call.target + "` during monomorphization: "@ + e,
                        ),
                    ),
                    Ok(slots) => matched_call(
                        program,
                        call,
                        facts,
                        declaration,
                        ty,
                        call_result(call, receiver, dest),
                        slots,
                        s.0,
                        s.1,
                    ),
                },
            },
        },
    }
}

/// The model of a solved call.
pub open spec fn solution_view(r: Result<(Bindings, Vec<InstanceArg>), MonoError>) -> Solution {
    match r {
        Ok(s) => Ok((s.0@, instance_args_view(s.1))),
        Err(e) => Err(e@),
    }
}

/// Solves a call: the receiver, the explicit arguments, the defaults, the run-time
/// arguments and the result, in that order.
pub fn infer_call<R: CallRules>(
    rules: &R,
    program: &MirProgram,
    call: &CallSite<'_>,
    facts: &CallFacts,
    receiver: Option<Reg>,
    dest: Reg,
    param_args: &Vec<MirParamArg>,
) -> (r: Result<(Bindings, Vec<InstanceArg>), MonoError>)
    ensures
        solution_view(r) == inferred_call(
            *rules,
            program@,
            call@,
            facts@,
            receiver,
            dest,
            param_args_view(*param_args),
        ),
{
    proof {
        reveal(inferred_call);
    }
    let declaration: &MirFunctionDeclaration = match find_facts(&program.declarations.functions, call.target) {
        Some(d) => d,
        None => return Err(fail_in(call.owner, cat3("callee `", call.target, "` lacks declaration facts"))),
    };
    let mut receiver_ty: Option<&Ty> = None;
    if let Some(reg) = receiver {
        match reg_ty(call.caller, reg, call.owner) {
            Ok(ty) => {
                receiver_ty = Some(peel_refs(ty));
            },
            Err(e) => return Err(e),
        }
    }
    let mut bindings: Bindings = base_bindings(program);
    let covered: usize = match solve_stated(
        program,
        call,
        facts,
        declaration,
        receiver_ty,
        param_args,
        &mut bindings,
    ) {
        Ok(n) => n,
        Err(e) => return Err(e),
    };
    let slots: CallSlots = match rules.match_call_slots(declaration, call.args.len(), call.kwargs) {
        Ok(slots) => slots,
        Err(e) => return Err(
            fail_in(call.owner, cat4("binding call to `", call.target, "` during monomorphization: ", &e)),
        ),
    };
    let result: Option<&Ty> = if receiver == Some(dest) { None } else { call.caller.reg_types.get(dest.0) };
    match solve_matched(
        program,
        call,
        facts,
        declaration,
        receiver_ty,
        result,
        &slots,
        &mut bindings,
        covered,
    ) {
        Ok(args) => Ok((bindings, args)),
        Err(e) => Err(e),
    }
}

} // verus!
