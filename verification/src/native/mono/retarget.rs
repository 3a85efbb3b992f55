//! Rewriting the calls of a body to concrete instances.

use crate::ast::{InfixOp, operator_method};
use crate::data::{copy_opt_string, opt_string_view};
use crate::mir::{
    Const, ConstModel, FuncRef, FuncRefModel, MirCaptureAccess, MirFunction, MirFunctionModel,
    MirInstr, MirInstrModel, MirParamArg, MirParamArgModel, MirPlace, MirPlaceModel, MirProgram,
    MirProgramModel, Proj, ProjModel, Reg, capture_accesses_view, copy_capture_accesses,
    copy_captures, copy_opt_place, copy_opt_places, copy_param_args, copy_regs, copy_string_regs,
    param_args_view, string_regs_view,
};
use crate::mir::verify::found_view;
use crate::mir::verify::subscripts::is_trait_dispatch;
use crate::native::mono::{MonoError, MonoErrorModel};
use crate::native::mono::bindings::Bindings;
use crate::native::mono::facts::{dunder_method_call, unresolved_method_call};
use crate::native::mono::function::{carried_types, function_types};
use crate::native::mono::infer::{
    CallFacts, CallModel, CallSite, FactsModel, base_bindings, fail_in, failure_in, fresh_bindings,
    has_captures, infer_call, inferred_call, is_retained_callable, retained_callable,
};
use crate::native::mono::instances::{Graph, GraphModel, Step, enqueue, enqueued, names};
use crate::native::mono::requests::{
    displays_requested, enqueue_display_instances, enqueue_hash_leaf_instances,
    enqueue_receiver_call, hash_leaf_requested, opt_const_view, parameter_constant,
    receiver_requested, stepped, value_param_constant,
};
use crate::native::mono::rules::{CallRules, body_of, find_body, find_struct, struct_template};
use crate::native::mono::unify::{is_symbolic, peel_refs, peeled, symbolic};
use crate::origin::copy_opt_ref_ty;
use crate::symbol::{
    InstanceArg, instance_args_view, is_stdlib_string_struct, is_string_struct, nominal_template,
    template_of,
};
use crate::table::{TyTable, table_get, table_set};
use crate::text::{cat2, cat3, find_first, first_occurrence, starts_with, str_eq};
use crate::types::{ParamDecl, Ty, TyModel, copy_opt_ty, copy_param_decls, param_decls_view, tys_view};
use vstd::prelude::*;

verus! {

/// What the rewriting of a body needs: the rules, the program, the template the
/// body comes from, and what is known of its registers.
#[derive(Debug)]
pub struct Env<'a, R> {
    pub rules: &'a R,
    pub program: &'a MirProgram,
    pub owner: &'a str,
    pub facts: &'a CallFacts,
}

/// Mathematical model of [`Env`].
pub struct EnvModel<R> {
    pub rules: R,
    pub program: MirProgramModel,
    pub owner: Seq<char>,
    pub facts: FactsModel,
}

impl<'a, R> View for Env<'a, R> {
    type V = EnvModel<R>;

    open spec fn view(&self) -> EnvModel<R> {
        EnvModel { rules: *self.rules, program: self.program@, owner: self.owner@, facts: self.facts@ }
    }
}

/// A graph and a body after a rewriting step, with what the step gave; or why it
/// failed.
pub type Rewrite<T> = Result<(GraphModel, MirFunctionModel, T), MonoErrorModel>;

/// A step that leaves the body alone.
pub open spec fn aside<T>(step: Step<T>, f: MirFunctionModel) -> Rewrite<T> {
    match step {
        Ok(s) => Ok((s.0, f, s.1)),
        Err(e) => Err(e),
    }
}

/// Whether the outcome of rewriting an instruction is the specified one.
pub open spec fn rewrites(
    graph: Graph,
    function: MirFunction,
    r: Result<MirInstr, MonoError>,
    wanted: Rewrite<MirInstrModel>,
) -> bool {
    match r {
        Ok(x) => wanted == Ok::<(GraphModel, MirFunctionModel, MirInstrModel), MonoErrorModel>((graph@, function@, x@)),
        Err(e) => wanted == Err::<(GraphModel, MirFunctionModel, MirInstrModel), MonoErrorModel>(e@),
    }
}

/// A step that gives an instruction and leaves the body alone.
pub open spec fn gives(graph: Graph, r: Result<MirInstr, MonoError>, wanted: Step<MirInstrModel>) -> bool {
    match r {
        Ok(x) => wanted == Ok::<(GraphModel, MirInstrModel), MonoErrorModel>((graph@, x@)),
        Err(e) => wanted == Err::<(GraphModel, MirInstrModel), MonoErrorModel>(e@),
    }
}

/// Compile-time arguments without their registers: the instance carries every
/// solution.
pub open spec fn without_values(args: Seq<MirParamArgModel>) -> Seq<MirParamArgModel> {
    Seq::new(args.len(), |i: int| MirParamArgModel { value: None, ..args[i] })
}

fn drop_values(args: &Vec<MirParamArg>) -> (r: Vec<MirParamArg>)
    ensures
        param_args_view(r) == without_values(param_args_view(*args)),
{
    let ghost model = param_args_view(*args);
    let mut out: Vec<MirParamArg> = Vec::new();
    for i in 0..args.len()
        invariant
            model == param_args_view(*args),
            out@.len() == i,
            forall|j: int| 0 <= j < i ==> #[trigger] param_args_view(out)[j] == without_values(model)[j],
    {
        assert(model[i as int] == args@[i as int]@);
        let ghost before = out;
        out.push(MirParamArg { name: copy_opt_string(&args[i].name), value: None });
        assert forall|j: int| 0 <= j < i + 1 implies #[trigger] param_args_view(out)[j] == without_values(model)[j] by {
            if j < i {
                assert(param_args_view(before)[j] == param_args_view(out)[j]);
            }
        }
    }
    assert(param_args_view(out) =~= without_values(model));
    out
}

/// Whether a register holds a nominal struct, references aside.
pub open spec fn holds_struct(regs: Seq<(u32, TyModel)>, reg: Reg) -> bool {
    match table_get(regs, reg.0) {
        Some(ty) => peeled(ty) is Struct,
        None => false,
    }
}

fn has_struct(regs: &TyTable, reg: Reg) -> (r: bool)
    ensures
        r == holds_struct(regs@, reg),
{
    match regs.get(reg.0) {
        Some(ty) => match peel_refs(ty) {
            Ty::Struct(_, _) => true,
            _ => false,
        },
        None => false,
    }
}

/// The method that a builtin function dispatches to on a nominal receiver.
pub open spec fn builtin_method(name: Seq<char>) -> Option<Seq<char>> {
    if name == "len"@ {
        Some("__len__"@)
    } else if name == "abs"@ {
        Some("__abs__"@)
    } else if name == "round"@ {
        Some("__round__"@)
    } else if name == "Int"@ {
        Some("__int__"@)
    } else if name == "Float64"@ {
        Some("__float__"@)
    } else if name == "Bool"@ {
        Some("__bool__"@)
    } else {
        None
    }
}

fn method_of_builtin(name: &str) -> (r: Option<&'static str>)
    ensures
        match r {
            Some(method) => builtin_method(name@) == Some(method@),
            None => builtin_method(name@) is None,
        },
{
    if str_eq(name, "len") {
        Some("__len__")
    } else if str_eq(name, "abs") {
        Some("__abs__")
    } else if str_eq(name, "round") {
        Some("__round__")
    } else if str_eq(name, "Int") {
        Some("__int__")
    } else if str_eq(name, "Float64") {
        Some("__float__")
    } else if str_eq(name, "Bool") {
        Some("__bool__")
    } else {
        None
    }
}

/// An operation that is dispatched by name on a nominal operand, as the method call
/// it stands for. Membership dispatches on the right operand and stays.
#[verifier::opaque]
pub open spec fn as_method_call(
    program: MirProgramModel,
    f: MirFunctionModel,
    x: MirInstrModel,
) -> MirInstrModel {
    match x {
        MirInstrModel::Call { dest, func, args, kwargs, .. } => if builtin_method(func.0) is Some && body_of(
            program.functions,
            func.0,
        ) is None && kwargs.len() == 0 && args.len() == 1 && holds_struct(f.reg_types, args[0]) {
            unresolved_method_call(dest, args[0], builtin_method(func.0)->Some_0, None, Seq::empty())
        } else {
            x
        },
        MirInstrModel::BinOp { op, dest, a, b, resolved } => if operator_method(op) is Some && !(op is In) && !(op is NotIn)
            && holds_struct(f.reg_types, a) {
            unresolved_method_call(dest, a, operator_method(op)->Some_0, resolved, seq![b])
        } else {
            x
        },
        _ => x,
    }
}

pub(crate) fn to_method_call(
    program: &MirProgram,
    function: &MirFunction,
    x: &MirInstr,
) -> (r: Option<MirInstr>)
    ensures
        match r {
            Some(y) => as_method_call(program@, function@, x@) == y@,
            None => as_method_call(program@, function@, x@) == x@,
        },
{
    proof {
        reveal(as_method_call);
    }
    match x {
        MirInstr::Call { dest, func, args, kwargs, .. } => {
            assert(string_regs_view(*kwargs).len() == kwargs@.len());
            if let Some(method) = method_of_builtin(&func.0) {
                if find_body(&program.functions, &func.0).is_none()
                    && kwargs.len() == 0
                    && args.len() == 1
                    && has_struct(
                    &function.reg_types,
                    args[0],
                ) {
                    let none: Vec<Reg> = Vec::new();
                    assert(none@ =~= Seq::empty());
                    return Some(dunder_method_call(*dest, args[0], method, None, none));
                }
            }
            None
        },
        MirInstr::BinOp { op, dest, a, b, resolved } => {
            if let Some(method) = op.dunder() {
                let membership: bool = match op {
                    InfixOp::In => true,
                    InfixOp::NotIn => true,
                    _ => false,
                };
                if !membership && has_struct(&function.reg_types, *a) {
                    let mut args: Vec<Reg> = Vec::new();
                    args.push(*b);
                    assert(args@ =~= seq![*b]);
                    return Some(dunder_method_call(*dest, *a, method, copy_opt_string(resolved), args));
                }
            }
            None
        },
        _ => None,
    }
}

/// Asking for the instance that a call selects.
#[verifier::opaque]
pub open spec fn call_requested<R: CallRules>(
    env: EnvModel<R>,
    g: GraphModel,
    f: MirFunctionModel,
    target: Seq<char>,
    receiver: Option<Reg>,
    dest: Reg,
    args: Seq<Reg>,
    kwargs: Seq<(Seq<char>, Reg)>,
    param_args: Seq<MirParamArgModel>,
) -> Step<Seq<char>> {
    match inferred_call(
        env.rules,
        env.program,
        CallModel { owner: env.owner, target, caller: f, args, kwargs },
        env.facts,
        receiver,
        dest,
        param_args,
    ) {
        Err(e) => Err(e),
        Ok(s) => enqueued(env.program, g, target, s.0, s.1),
    }
}

fn request_call<R: CallRules>(
    env: &Env<'_, R>,
    graph: &mut Graph,
    function: &MirFunction,
    target: &str,
    receiver: Option<Reg>,
    dest: Reg,
    args: &Vec<Reg>,
    kwargs: &Vec<(String, Reg)>,
    param_args: &Vec<MirParamArg>,
) -> (r: Result<String, MonoError>)
    ensures
        names(
            *final(graph),
            r,
            call_requested(
                env@,
                old(graph)@,
                function@,
                target@,
                receiver,
                dest,
                args@,
                string_regs_view(*kwargs),
                param_args_view(*param_args),
            ),
        ),
{
    proof {
        reveal(call_requested);
    }
    let call: CallSite<'_> = CallSite { owner: env.owner, target, caller: function, args, kwargs };
    match infer_call(env.rules, env.program, &call, env.facts, receiver, dest, param_args) {
        Err(e) => Err(e),
        Ok(s) => enqueue(env.program, graph, target, s.0, s.1),
    }
}

/// Asking for the `__init__` that a constructor call runs. The solved owner is the
/// type of the destination.
#[verifier::opaque]
pub open spec fn constructor_requested<R: CallRules>(
    env: EnvModel<R>,
    g: GraphModel,
    f: MirFunctionModel,
    dest: Reg,
    init: Seq<char>,
    args: Seq<Reg>,
    kwargs: Seq<(Seq<char>, Reg)>,
    param_args: Seq<MirParamArgModel>,
) -> Rewrite<()> {
    match inferred_call(
        env.rules,
        env.program,
        CallModel { owner: env.owner, target: init, caller: f, args, kwargs },
        env.facts,
        Some(dest),
        dest,
        param_args,
    ) {
        Err(e) => Err(e),
        Ok(s) => match enqueued(env.program, g, init, s.0, s.1) {
            Err(e) => Err(e),
            Ok(t) => Ok(
                (
                    t.0,
                    match s.0.self_instance {
                        Some(pair) => MirFunctionModel {
                            reg_types: table_set(f.reg_types, dest.0, pair.1),
                            ..f
                        },
                        None => f,
                    },
                    (),
                ),
            ),
        },
    }
}

fn request_constructor<R: CallRules>(
    env: &Env<'_, R>,
    graph: &mut Graph,
    function: &mut MirFunction,
    dest: Reg,
    init: &str,
    args: &Vec<Reg>,
    kwargs: &Vec<(String, Reg)>,
    param_args: &Vec<MirParamArg>,
) -> (r: Result<(), MonoError>)
    ensures
        ({
            let wanted = constructor_requested(
                env@,
                old(graph)@,
                old(function)@,
                dest,
                init@,
                args@,
                string_regs_view(*kwargs),
                param_args_view(*param_args),
            );
            match r {
                Ok(()) => wanted == Ok::<(GraphModel, MirFunctionModel, ()), MonoErrorModel>(
                    (final(graph)@, final(function)@, ()),
                ),
                Err(e) => wanted == Err::<(GraphModel, MirFunctionModel, ()), MonoErrorModel>(e@),
            }
        }),
{
    proof {
        reveal(constructor_requested);
    }
    let ghost f = function@;
    let call: CallSite<'_> = CallSite { owner: env.owner, target: init, caller: function, args, kwargs };
    let solved: (Bindings, Vec<InstanceArg>) = match infer_call(
        env.rules,
        env.program,
        &call,
        env.facts,
        Some(dest),
        dest,
        param_args,
    ) {
        Ok(s) => s,
        Err(e) => return Err(e),
    };
    let concrete: Option<Ty> = match &solved.0.self_instance {
        Some(pair) => Some(pair.1.copy()),
        None => None,
    };
    if let Err(e) = enqueue(env.program, graph, init, solved.0, solved.1) {
        return Err(e);
    }
    if let Some(ty) = concrete {
        function.reg_types.insert(dest.0, ty);
        assert(function@ =~= MirFunctionModel { reg_types: table_set(f.reg_types, dest.0, ty@), ..f });
    }
    Ok(())
}

/// A constructor's name as the concrete struct that its destination holds.
pub open spec fn respelled(f: MirFunctionModel, dest: Reg, func: Seq<char>) -> Seq<char> {
    match table_get(f.reg_types, dest.0) {
        Some(TyModel::Struct(concrete, _)) => if concrete != func && template_of(concrete) == func {
            concrete
        } else {
            func
        },
        _ => func,
    }
}

fn respell(function: &MirFunction, dest: Reg, func: &String) -> (r: String)
    ensures
        r@ == respelled(function@, dest, func@),
{
    if let Some(Ty::Struct(concrete, _)) = function.reg_types.get(dest.0) {
        if !str_eq(concrete, func) && str_eq(nominal_template(concrete), func) {
            return concrete.clone();
        }
    }
    func.clone()
}

/// A constructor call. `Type(copy=value)` runs no `__init__`.
#[verifier::opaque]
pub open spec fn constructor_call<R: CallRules>(
    env: EnvModel<R>,
    g: GraphModel,
    f: MirFunctionModel,
    dest: Reg,
    func: Seq<char>,
    args: Seq<Reg>,
    kwargs: Seq<(Seq<char>, Reg)>,
    param_args: Seq<MirParamArgModel>,
) -> Rewrite<(Seq<char>, Seq<MirParamArgModel>)> {
    if args.len() == 0 && kwargs.len() == 1 && kwargs[0].0 == "copy"@ {
        Ok((g, f, (respelled(f, dest, func), param_args)))
    } else {
        let init = env.rules.callable_symbol(
            env.program.functions,
            func + ".__init__"@,
            args.len(),
            kwargs.len(),
        );
        let built: Rewrite<()> = if body_of(env.program.functions, init) is Some {
            constructor_requested(env, g, f, dest, init, args, kwargs, param_args)
        } else {
            Ok((g, f, ()))
        };
        match built {
            Err(e) => Err(e),
            Ok(s) => Ok((s.0, s.1, (respelled(s.1, dest, func), without_values(param_args)))),
        }
    }
}

/// Whether the outcome of rewriting a call is the specified one.
pub open spec fn respells(
    graph: Graph,
    function: MirFunction,
    r: Result<(String, Vec<MirParamArg>), MonoError>,
    wanted: Rewrite<(Seq<char>, Seq<MirParamArgModel>)>,
) -> bool {
    match r {
        Ok(t) => wanted == Ok::<(GraphModel, MirFunctionModel, (Seq<char>, Seq<MirParamArgModel>)), MonoErrorModel>(
            (graph@, function@, (t.0@, param_args_view(t.1))),
        ),
        Err(e) => wanted == Err::<(GraphModel, MirFunctionModel, (Seq<char>, Seq<MirParamArgModel>)), MonoErrorModel>(
            e@,
        ),
    }
}

fn rewrite_constructor<R: CallRules>(
    env: &Env<'_, R>,
    graph: &mut Graph,
    function: &mut MirFunction,
    dest: Reg,
    func: &String,
    args: &Vec<Reg>,
    kwargs: &Vec<(String, Reg)>,
    param_args: &Vec<MirParamArg>,
) -> (r: Result<(String, Vec<MirParamArg>), MonoError>)
    ensures
        respells(
            *final(graph),
            *final(function),
            r,
            constructor_call(
                env@,
                old(graph)@,
                old(function)@,
                dest,
                func@,
                args@,
                string_regs_view(*kwargs),
                param_args_view(*param_args),
            ),
        ),
{
    proof {
        reveal(constructor_call);
    }
    assert(string_regs_view(*kwargs).len() == kwargs@.len());
    if args.len() == 0 && kwargs.len() == 1 {
        assert(string_regs_view(*kwargs)[0] == (kwargs@[0].0@, kwargs@[0].1));
        if str_eq(&kwargs[0].0, "copy") {
            return Ok((respell(function, dest, func), copy_param_args(param_args)));
        }
    }
    let init: String = env.rules.resolve_callable_symbol(
        &env.program.functions,
        &cat2(func, ".__init__"),
        args.len(),
        kwargs.len(),
    );
    if find_body(&env.program.functions, &init).is_some() {
        if let Err(e) = request_constructor(env, graph, function, dest, &init, args, kwargs, param_args) {
            return Err(e);
        }
    }
    Ok((respell(function, dest, func), drop_values(param_args)))
}

/// A call of something that is no function of the program. Printing and
/// stringifying display their arguments, and a struct is constructed.
#[verifier::opaque]
pub open spec fn builtin_call<R: CallRules>(
    env: EnvModel<R>,
    g: GraphModel,
    f: MirFunctionModel,
    dest: Reg,
    func: Seq<char>,
    args: Seq<Reg>,
    kwargs: Seq<(Seq<char>, Reg)>,
    param_args: Seq<MirParamArgModel>,
) -> Rewrite<(Seq<char>, Seq<MirParamArgModel>)> {
    let shown: Step<()> = if func == "print"@ || func == "String"@ {
        displays_requested(env.rules, env.program, g, env.owner, f.reg_types, args, args.len())
    } else {
        Ok((g, ()))
    };
    match shown {
        Err(e) => Err(e),
        Ok(s) => if struct_template(env.program.declarations.structs, func) is Some && !is_string_struct(func) {
            constructor_call(env, s.0, f, dest, func, args, kwargs, param_args)
        } else {
            Ok((s.0, f, (func, param_args)))
        },
    }
}

fn rewrite_builtin_call<R: CallRules>(
    env: &Env<'_, R>,
    graph: &mut Graph,
    function: &mut MirFunction,
    dest: Reg,
    func: &String,
    args: &Vec<Reg>,
    kwargs: &Vec<(String, Reg)>,
    param_args: &Vec<MirParamArg>,
) -> (r: Result<(String, Vec<MirParamArg>), MonoError>)
    ensures
        respells(
            *final(graph),
            *final(function),
            r,
            builtin_call(
                env@,
                old(graph)@,
                old(function)@,
                dest,
                func@,
                args@,
                string_regs_view(*kwargs),
                param_args_view(*param_args),
            ),
        ),
{
    proof {
        reveal(builtin_call);
    }
    if str_eq(func, "print") || str_eq(func, "String") {
        if let Err(e) = enqueue_display_instances(
            env.rules,
            env.program,
            graph,
            env.owner,
            &function.reg_types,
            args,
        ) {
            return Err(e);
        }
    }
    if find_struct(&env.program.declarations.structs, func).is_some() && !is_stdlib_string_struct(func) {
        return rewrite_constructor(env, graph, function, dest, func, args, kwargs, param_args);
    }
    Ok((func.clone(), copy_param_args(param_args)))
}

/// A call of a function of the program. The destination of a direct constructor
/// call is its receiver.
#[verifier::opaque]
pub open spec fn direct_call<R: CallRules>(
    env: EnvModel<R>,
    g: GraphModel,
    f: MirFunctionModel,
    dest: Reg,
    func: Seq<char>,
    args: Seq<Reg>,
    kwargs: Seq<(Seq<char>, Reg)>,
    param_args: Seq<MirParamArgModel>,
) -> Rewrite<(Seq<char>, Seq<MirParamArgModel>)> {
    let receiver = if first_occurrence(func, ".__init__"@) is Some && table_get(f.reg_types, dest.0) is Some {
        Some(dest)
    } else {
        None
    };
    match call_requested(env, g, f, func, receiver, dest, args, kwargs, param_args) {
        Err(e) => Err(e),
        Ok(s) => Ok((s.0, f, (s.1, without_values(param_args)))),
    }
}

fn rewrite_direct_call<R: CallRules>(
    env: &Env<'_, R>,
    graph: &mut Graph,
    function: &mut MirFunction,
    dest: Reg,
    func: &String,
    args: &Vec<Reg>,
    kwargs: &Vec<(String, Reg)>,
    param_args: &Vec<MirParamArg>,
) -> (r: Result<(String, Vec<MirParamArg>), MonoError>)
    ensures
        respells(
            *final(graph),
            *final(function),
            r,
            direct_call(
                env@,
                old(graph)@,
                old(function)@,
                dest,
                func@,
                args@,
                string_regs_view(*kwargs),
                param_args_view(*param_args),
            ),
        ),
{
    proof {
        reveal(direct_call);
    }
    let receiver: Option<Reg> = if find_first(func, ".__init__").is_some() && function.reg_types.contains_key(dest.0) {
        Some(dest)
    } else {
        None
    };
    match request_call(env, graph, function, func, receiver, dest, args, kwargs, param_args) {
        Err(e) => Err(e),
        Ok(name) => Ok((name, drop_values(param_args))),
    }
}

/// A direct call, rewritten.
#[verifier::opaque]
pub open spec fn call_rewritten<R: CallRules>(
    env: EnvModel<R>,
    g: GraphModel,
    f: MirFunctionModel,
    x: MirInstrModel,
) -> Rewrite<
    MirInstrModel,
> {
    match x {
        MirInstrModel::Call {
            dest,
            func,
            raises,
            args,
            kwargs,
            arg_places,
            kwarg_places,
            capture_accesses,
            param_arg_regs,
        } => {
            let named = if body_of(env.program.functions, func.0) is Some {
                direct_call(env, g, f, dest, func.0, args, kwargs, param_arg_regs)
            } else {
                builtin_call(env, g, f, dest, func.0, args, kwargs, param_arg_regs)
            };
            match named {
                Err(e) => Err(e),
                Ok(s) => Ok(
                    (
                        s.0,
                        s.1,
                        MirInstrModel::Call {
                            dest,
                            func: FuncRefModel(s.2.0),
                            raises,
                            args,
                            kwargs,
                            arg_places,
                            kwarg_places,
                            capture_accesses,
                            param_arg_regs: s.2.1,
                        },
                    ),
                ),
            }
        },
        _ => Ok((g, f, x)),
    }
}

pub(crate) fn rewrite_call<R: CallRules>(env: &Env<'_, R>, graph: &mut Graph, function: &mut MirFunction, x: &MirInstr) -> (r: Result<
    MirInstr,
    MonoError,
>)
    requires
        x is Call,
    ensures
        rewrites(*final(graph), *final(function), r, call_rewritten(env@, old(graph)@, old(function)@, x@)),
{
    proof {
        reveal(call_rewritten);
    }
    match x {
        MirInstr::Call {
            dest,
            func,
            raises,
            args,
            kwargs,
            arg_places,
            kwarg_places,
            capture_accesses,
            param_arg_regs,
        } => {
            let named: Result<(String, Vec<MirParamArg>), MonoError> = if find_body(
                &env.program.functions,
                &func.0,
            ).is_some() {
                rewrite_direct_call(env, graph, function, *dest, &func.0, args, kwargs, param_arg_regs)
            } else {
                rewrite_builtin_call(env, graph, function, *dest, &func.0, args, kwargs, param_arg_regs)
            };
            match named {
                Err(e) => Err(e),
                Ok(s) => {
                    let name: FuncRef = FuncRef(s.0);
                    assert(name@ == FuncRefModel(s.0@));
                    Ok(
                        MirInstr::Call {
                            dest: *dest,
                            func: name,
                            raises: copy_opt_ty(raises),
                            args: copy_regs(args),
                            kwargs: copy_string_regs(kwargs),
                            arg_places: copy_opt_places(arg_places),
                            kwarg_places: copy_opt_places(kwarg_places),
                            capture_accesses: copy_capture_accesses(capture_accesses),
                            param_arg_regs: s.1,
                        },
                    )
                },
            }
        },
        _ => Ok(x.copy()),
    }
}

/// Whether a call hashes a leaf that is no struct.
pub open spec fn hashes_leaf(method: Seq<char>, args: nat, kwargs: nat, receiver: TyModel) -> bool {
    method == "__hash__"@ && args == 1 && kwargs == 0 && !(receiver is Struct)
}

/// What a method call asks for beside its target: the methods that hashing a leaf
/// calls.
#[verifier::opaque]
pub open spec fn leaf_requested<R: CallRules>(
    env: EnvModel<R>,
    g: GraphModel,
    f: MirFunctionModel,
    method: Seq<char>,
    args: Seq<Reg>,
    kwargs: nat,
    receiver: TyModel,
) -> Step<()> {
    if hashes_leaf(method, args.len(), kwargs, receiver) {
        hash_leaf_requested(env.rules, env.program, g, env.owner, f.reg_types, args[0], receiver)
    } else {
        Ok((g, ()))
    }
}

fn request_leaf<R: CallRules>(
    env: &Env<'_, R>,
    graph: &mut Graph,
    function: &MirFunction,
    method: &str,
    args: &Vec<Reg>,
    kwargs: usize,
    receiver: &Ty,
) -> (r: Result<(), MonoError>)
    ensures
        stepped(
            *final(graph),
            r,
            leaf_requested(env@, old(graph)@, function@, method@, args@, kwargs as nat, receiver@),
        ),
{
    proof {
        reveal(leaf_requested);
    }
    let nominal: bool = match receiver {
        Ty::Struct(_, _) => true,
        _ => false,
    };
    if str_eq(method, "__hash__") && args.len() == 1 && kwargs == 0 && !nominal {
        return enqueue_hash_leaf_instances(
            env.rules,
            env.program,
            graph,
            env.owner,
            &function.reg_types,
            args[0],
            receiver,
        );
    }
    Ok(())
}

/// The symbol that a method call on a struct is resolved to, and whether its
/// compile-time registers go. A method that the program lacks leaves the call; the
/// synthesized `write` asks for the `write_string` of its receiver.
#[verifier::opaque]
pub open spec fn struct_method<R: CallRules>(
    env: EnvModel<R>,
    g: GraphModel,
    f: MirFunctionModel,
    name: Seq<char>,
    receiver: TyModel,
    dest: Reg,
    recv: Reg,
    method: Seq<char>,
    resolved: Option<Seq<char>>,
    args: Seq<Reg>,
    kwargs: Seq<(Seq<char>, Reg)>,
    param_args: Seq<MirParamArgModel>,
) -> Step<(Option<Seq<char>>, Seq<MirParamArgModel>)> {
    let template = template_of(name);
    let target = env.rules.method_symbol(
        env.program.functions,
        template,
        method,
        resolved,
        args.len(),
        kwargs.len(),
    );
    if body_of(env.program.functions, target) is None {
        let writer = env.rules.callable_symbol(env.program.functions, template + ".write_string"@, 1, 0);
        if method == "write"@ && body_of(env.program.functions, writer) is Some {
            match receiver_requested(env.program, g, env.owner, writer, receiver, None) {
                Err(e) => Err(e),
                Ok(s) => Ok((s.0, (resolved, param_args))),
            }
        } else {
            Ok((g, (resolved, param_args)))
        }
    } else {
        match call_requested(env, g, f, target, Some(recv), dest, args, kwargs, param_args) {
            Err(e) => Err(e),
            Ok(s) => Ok((s.0, (Some(s.1), without_values(param_args)))),
        }
    }
}

/// Whether the outcome of resolving a method call is the specified one.
pub open spec fn resolves(
    graph: Graph,
    r: Result<(Option<String>, Vec<MirParamArg>), MonoError>,
    wanted: Step<(Option<Seq<char>>, Seq<MirParamArgModel>)>,
) -> bool {
    match r {
        Ok(t) => wanted == Ok::<(GraphModel, (Option<Seq<char>>, Seq<MirParamArgModel>)), MonoErrorModel>(
            (graph@, (opt_string_view(t.0), param_args_view(t.1))),
        ),
        Err(e) => wanted == Err::<(GraphModel, (Option<Seq<char>>, Seq<MirParamArgModel>)), MonoErrorModel>(e@),
    }
}

fn resolve_struct_method<R: CallRules>(
    env: &Env<'_, R>,
    graph: &mut Graph,
    function: &MirFunction,
    name: &str,
    receiver: &Ty,
    dest: Reg,
    recv: Reg,
    method: &str,
    resolved: &Option<String>,
    args: &Vec<Reg>,
    kwargs: &Vec<(String, Reg)>,
    param_args: &Vec<MirParamArg>,
) -> (r: Result<(Option<String>, Vec<MirParamArg>), MonoError>)
    ensures
        resolves(
            *final(graph),
            r,
            struct_method(
                env@,
                old(graph)@,
                function@,
                name@,
                receiver@,
                dest,
                recv,
                method@,
                opt_string_view(*resolved),
                args@,
                string_regs_view(*kwargs),
                param_args_view(*param_args),
            ),
        ),
{
    proof {
        reveal(struct_method);
    }
    assert(string_regs_view(*kwargs).len() == kwargs@.len());
    let template: &str = nominal_template(name);
    let target: String = env.rules.resolve_method_symbol(
        &env.program.functions,
        template,
        method,
        resolved,
        args.len(),
        kwargs.len(),
    );
    if find_body(&env.program.functions, &target).is_none() {
        if str_eq(method, "write") {
            let writer: String = env.rules.resolve_callable_symbol(
                &env.program.functions,
                &cat2(template, ".write_string"),
                1,
                0,
            );
            if find_body(&env.program.functions, &writer).is_some() {
                if let Err(e) = enqueue_receiver_call(env.program, graph, env.owner, &writer, receiver, None) {
                    return Err(e);
                }
            }
        }
        return Ok((copy_opt_string(resolved), copy_param_args(param_args)));
    }
    match request_call(env, graph, function, &target, Some(recv), dest, args, kwargs, param_args) {
        Err(e) => Err(e),
        Ok(symbol) => Ok((Some(symbol), drop_values(param_args))),
    }
}

/// What a method call is resolved to. A call through a trait bound on a receiver
/// that is no struct loses its symbol; writing to the builtin string displays its
/// arguments; a borrowed receiver dispatches on its referent.
#[verifier::opaque]
pub open spec fn method_resolved<R: CallRules>(
    env: EnvModel<R>,
    g: GraphModel,
    f: MirFunctionModel,
    dest: Reg,
    recv: Reg,
    method: Seq<char>,
    resolved: Option<Seq<char>>,
    args: Seq<Reg>,
    kwargs: Seq<(Seq<char>, Reg)>,
    param_args: Seq<MirParamArgModel>,
) -> Step<(Option<Seq<char>>, Seq<MirParamArgModel>)> {
    match table_get(f.reg_types, recv.0) {
        None => Err(failure_in(env.owner, "method receiver lacks a MIR type"@)),
        Some(ty) => match leaf_requested(env, g, f, method, args, kwargs.len(), peeled(ty)) {
            Err(e) => Err(e),
            Ok(s) => match peeled(ty) {
                TyModel::Struct(name, _) => struct_method(
                    env,
                    s.0,
                    f,
                    name,
                    peeled(ty),
                    dest,
                    recv,
                    method,
                    resolved,
                    args,
                    kwargs,
                    param_args,
                ),
                _ => if resolved is Some && is_trait_dispatch(resolved->Some_0) {
                    Ok((s.0, (None, param_args)))
                } else if method == "write"@ && peeled(ty) is StringLiteral {
                    match displays_requested(
                        env.rules,
                        env.program,
                        s.0,
                        env.owner,
                        f.reg_types,
                        args,
                        args.len(),
                    ) {
                        Err(e) => Err(e),
                        Ok(t) => Ok((t.0, (resolved, param_args))),
                    }
                } else {
                    Ok((s.0, (resolved, param_args)))
                },
            },
        },
    }
}

fn resolve_method<R: CallRules>(
    env: &Env<'_, R>,
    graph: &mut Graph,
    function: &MirFunction,
    dest: Reg,
    recv: Reg,
    method: &str,
    resolved: &Option<String>,
    args: &Vec<Reg>,
    kwargs: &Vec<(String, Reg)>,
    param_args: &Vec<MirParamArg>,
) -> (r: Result<(Option<String>, Vec<MirParamArg>), MonoError>)
    ensures
        resolves(
            *final(graph),
            r,
            method_resolved(
                env@,
                old(graph)@,
                function@,
                dest,
                recv,
                method@,
                opt_string_view(*resolved),
                args@,
                string_regs_view(*kwargs),
                param_args_view(*param_args),
            ),
        ),
{
    proof {
        reveal(method_resolved);
    }
    assert(string_regs_view(*kwargs).len() == kwargs@.len());
    let ty: &Ty = match function.reg_types.get(recv.0) {
        Some(ty) => ty,
        None => return Err(fail_in(env.owner, "method receiver lacks a MIR type".to_owned())),
    };
    let plain: &Ty = peel_refs(ty);
    if let Err(e) = request_leaf(env, graph, function, method, args, kwargs.len(), plain) {
        return Err(e);
    }
    if let Ty::Struct(name, _) = plain {
        return resolve_struct_method(
            env,
            graph,
            function,
            name,
            plain,
            dest,
            recv,
            method,
            resolved,
            args,
            kwargs,
            param_args,
        );
    }
    let dispatched: bool = match resolved {
        Some(target) => starts_with(target, "__trait_dispatch."),
        None => false,
    };
    if dispatched {
        return Ok((None, copy_param_args(param_args)));
    }
    let literal: bool = match plain {
        Ty::StringLiteral => true,
        _ => false,
    };
    if str_eq(method, "write") && literal {
        if let Err(e) = enqueue_display_instances(
            env.rules,
            env.program,
            graph,
            env.owner,
            &function.reg_types,
            args,
        ) {
            return Err(e);
        }
    }
    Ok((copy_opt_string(resolved), copy_param_args(param_args)))
}

/// A method call, rewritten.
#[verifier::opaque]
pub open spec fn method_rewritten<R: CallRules>(
    env: EnvModel<R>,
    g: GraphModel,
    f: MirFunctionModel,
    x: MirInstrModel,
) -> Step<
    MirInstrModel,
> {
    match x {
        MirInstrModel::MethodCall {
            dest,
            recv,
            method,
            resolved,
            raises,
            reference_result,
            result_adapter,
            args,
            kwargs,
            recv_place,
            recv_writes,
            arg_places,
            kwarg_places,
            capture_accesses,
            param_arg_regs,
            param_decls,
        } => match method_resolved(env, g, f, dest, recv, method, resolved, args, kwargs, param_arg_regs) {
            Err(e) => Err(e),
            Ok(s) => Ok(
                (
                    s.0,
                    MirInstrModel::MethodCall {
                        dest,
                        recv,
                        method,
                        resolved: s.1.0,
                        raises,
                        reference_result,
                        result_adapter,
                        args,
                        kwargs,
                        recv_place,
                        recv_writes,
                        arg_places,
                        kwarg_places,
                        capture_accesses,
                        param_arg_regs: s.1.1,
                        param_decls,
                    },
                ),
            ),
        },
        _ => Ok((g, x)),
    }
}

pub(crate) fn rewrite_method<R: CallRules>(env: &Env<'_, R>, graph: &mut Graph, function: &MirFunction, x: &MirInstr) -> (r: Result<
    MirInstr,
    MonoError,
>)
    requires
        x is MethodCall,
    ensures
        gives(*final(graph), r, method_rewritten(env@, old(graph)@, function@, x@)),
{
    proof {
        reveal(method_rewritten);
    }
    match x {
        MirInstr::MethodCall {
            dest,
            recv,
            method,
            resolved,
            raises,
            reference_result,
            result_adapter,
            args,
            kwargs,
            recv_place,
            recv_writes,
            arg_places,
            kwarg_places,
            capture_accesses,
            param_arg_regs,
            param_decls,
        } => match resolve_method(env, graph, function, *dest, *recv, method, resolved, args, kwargs, param_arg_regs) {
            Err(e) => Err(e),
            Ok(s) => Ok(
                MirInstr::MethodCall {
                    dest: *dest,
                    recv: *recv,
                    method: method.clone(),
                    resolved: s.0,
                    raises: copy_opt_ty(raises),
                    reference_result: copy_opt_ref_ty(reference_result),
                    result_adapter: *result_adapter,
                    args: copy_regs(args),
                    kwargs: copy_string_regs(kwargs),
                    recv_place: copy_opt_place(recv_place),
                    recv_writes: *recv_writes,
                    arg_places: copy_opt_places(arg_places),
                    kwarg_places: copy_opt_places(kwarg_places),
                    capture_accesses: copy_capture_accesses(capture_accesses),
                    param_arg_regs: s.1,
                    param_decls: copy_param_decls(param_decls),
                },
            ),
        },
        _ => Ok(x.copy()),
    }
}

/// What an indirect call becomes.
pub enum Devirtualized {
    /// A direct call of the symbol.
    Direct(Seq<char>),
    /// A `__call__` method call of the symbol.
    Method(Seq<char>),
    /// It stays.
    Stays,
}

/// Finding the target of an indirect call: a statically named callable without an
/// environment, or the `__call__` of a nominal callee.
#[verifier::opaque]
pub open spec fn devirtualized<R: CallRules>(
    env: EnvModel<R>,
    g: GraphModel,
    f: MirFunctionModel,
    dest: Reg,
    callee: Reg,
    resolved: Option<Seq<char>>,
    args: Seq<Reg>,
    kwargs: Seq<(Seq<char>, Reg)>,
    param_args: Seq<MirParamArgModel>,
) -> Step<Devirtualized> {
    let ty = table_get(f.reg_types, callee.0);
    let dependent = ty is Some && retained_callable(ty->Some_0);
    let known = env.facts.targets.dom().contains(callee.0);
    let found = env.facts.targets[callee.0];
    if known && (found.1 || dependent) {
        if !found.1 {
            Err(has_captures(env.owner, found.0))
        } else {
            match call_requested(env, g, f, found.0, None, dest, args, kwargs, param_args) {
                Err(e) => Err(e),
                Ok(s) => Ok((s.0, Devirtualized::Direct(s.1))),
            }
        }
    } else {
        match ty {
            None => Ok((g, Devirtualized::Stays)),
            Some(ty) => match peeled(ty) {
                TyModel::Struct(name, _) => {
                    let target = env.rules.method_symbol(
                        env.program.functions,
                        template_of(name),
                        "__call__"@,
                        resolved,
                        args.len(),
                        kwargs.len(),
                    );
                    if body_of(env.program.functions, target) is None {
                        Ok((g, Devirtualized::Stays))
                    } else {
                        match call_requested(env, g, f, target, Some(callee), dest, args, kwargs, param_args) {
                            Err(e) => Err(e),
                            Ok(s) => Ok((s.0, Devirtualized::Method(s.1))),
                        }
                    }
                },
                _ => Ok((g, Devirtualized::Stays)),
            },
        }
    }
}

/// What an indirect call becomes.
pub enum Devirtualization {
    Direct(String),
    Method(String),
    Stays,
}

impl View for Devirtualization {
    type V = Devirtualized;

    open spec fn view(&self) -> Devirtualized {
        match self {
            Devirtualization::Direct(name) => Devirtualized::Direct(name@),
            Devirtualization::Method(name) => Devirtualized::Method(name@),
            Devirtualization::Stays => Devirtualized::Stays,
        }
    }
}

fn devirtualize<R: CallRules>(
    env: &Env<'_, R>,
    graph: &mut Graph,
    function: &MirFunction,
    dest: Reg,
    callee: Reg,
    resolved: &Option<String>,
    args: &Vec<Reg>,
    kwargs: &Vec<(String, Reg)>,
    param_args: &Vec<MirParamArg>,
) -> (r: Result<Devirtualization, MonoError>)
    ensures
        ({
            let wanted = devirtualized(
                env@,
                old(graph)@,
                function@,
                dest,
                callee,
                opt_string_view(*resolved),
                args@,
                string_regs_view(*kwargs),
                param_args_view(*param_args),
            );
            match r {
                Ok(d) => wanted == Ok::<(GraphModel, Devirtualized), MonoErrorModel>((final(graph)@, d@)),
                Err(e) => wanted == Err::<(GraphModel, Devirtualized), MonoErrorModel>(e@),
            }
        }),
{
    proof {
        reveal(devirtualized);
    }
    assert(string_regs_view(*kwargs).len() == kwargs@.len());
    let ty: Option<&Ty> = function.reg_types.get(callee.0);
    let dependent: bool = match ty {
        Some(ty) => is_retained_callable(ty),
        None => false,
    };
    if let Some(found) = env.facts.target(callee) {
        if found.1 || dependent {
            if !found.1 {
                return Err(
                    fail_in(env.owner, cat3("generic retained callable `", &found.0, "` has captures"))
                );
            }
            return match request_call(env, graph, function, &found.0, None, dest, args, kwargs, param_args) {
                Err(e) => Err(e),
                Ok(name) => Ok(Devirtualization::Direct(name)),
            };
        }
    }
    if let Some(ty) = ty {
        if let Ty::Struct(name, _) = peel_refs(ty) {
            let target: String = env.rules.resolve_method_symbol(
                &env.program.functions,
                nominal_template(name),
                "__call__",
                resolved,
                args.len(),
                kwargs.len(),
            );
            if find_body(&env.program.functions, &target).is_some() {
                return match request_call(
                    env,
                    graph,
                    function,
                    &target,
                    Some(callee),
                    dest,
                    args,
                    kwargs,
                    param_args,
                ) {
                    Err(e) => Err(e),
                    Ok(name) => Ok(Devirtualization::Method(name)),
                };
            }
        }
    }
    Ok(Devirtualization::Stays)
}

/// An indirect call, rewritten.
#[verifier::opaque]
pub open spec fn indirect_rewritten<R: CallRules>(
    env: EnvModel<R>,
    g: GraphModel,
    f: MirFunctionModel,
    x: MirInstrModel,
) -> Step<
    MirInstrModel,
> {
    match x {
        MirInstrModel::CallIndirect {
            dest,
            callee,
            resolved,
            raises,
            args,
            kwargs,
            callee_place,
            arg_places,
            kwarg_places,
            capture_accesses,
            param_arg_regs,
            ..
        } => match devirtualized(env, g, f, dest, callee, resolved, args, kwargs, param_arg_regs) {
            Err(e) => Err(e),
            Ok(s) => Ok(
                (
                    s.0,
                    match s.1 {
                        Devirtualized::Direct(name) => MirInstrModel::Call {
                            dest,
                            func: FuncRefModel(name),
                            raises,
                            args,
                            kwargs,
                            arg_places,
                            kwarg_places,
                            capture_accesses,
                            param_arg_regs: Seq::empty(),
                        },
                        Devirtualized::Method(name) => MirInstrModel::MethodCall {
                            dest,
                            recv: callee,
                            method: "__call__"@,
                            resolved: Some(name),
                            raises,
                            reference_result: None,
                            result_adapter: None,
                            args,
                            kwargs,
                            recv_place: callee_place,
                            recv_writes: true,
                            arg_places,
                            kwarg_places,
                            capture_accesses: Seq::empty(),
                            param_arg_regs,
                            param_decls: Seq::empty(),
                        },
                        Devirtualized::Stays => x,
                    },
                ),
            ),
        },
        _ => Ok((g, x)),
    }
}

pub(crate) fn rewrite_indirect<R: CallRules>(env: &Env<'_, R>, graph: &mut Graph, function: &MirFunction, x: &MirInstr) -> (r: Result<
    MirInstr,
    MonoError,
>)
    requires
        x is CallIndirect,
    ensures
        gives(*final(graph), r, indirect_rewritten(env@, old(graph)@, function@, x@)),
{
    proof {
        reveal(indirect_rewritten);
    }
    match x {
        MirInstr::CallIndirect {
            dest,
            callee,
            resolved,
            raises,
            args,
            kwargs,
            callee_place,
            arg_places,
            kwarg_places,
            capture_accesses,
            param_arg_regs,
            ..
        } => match devirtualize(env, graph, function, *dest, *callee, resolved, args, kwargs, param_arg_regs) {
            Err(e) => Err(e),
            Ok(d) => match d {
                Devirtualization::Direct(name) => {
                    let func: FuncRef = FuncRef(name);
                    assert(func@ == FuncRefModel(name@));
                    let none: Vec<MirParamArg> = Vec::new();
                    assert(param_args_view(none) =~= Seq::empty());
                    Ok(
                        MirInstr::Call {
                            dest: *dest,
                            func,
                            raises: copy_opt_ty(raises),
                            args: copy_regs(args),
                            kwargs: copy_string_regs(kwargs),
                            arg_places: copy_opt_places(arg_places),
                            kwarg_places: copy_opt_places(kwarg_places),
                            capture_accesses: copy_capture_accesses(capture_accesses),
                            param_arg_regs: none,
                        },
                    )
                },
                Devirtualization::Method(name) => {
                    let accesses: Vec<MirCaptureAccess> = Vec::new();
                    assert(capture_accesses_view(accesses) =~= Seq::empty());
                    let decls: Vec<ParamDecl> = Vec::new();
                    assert(param_decls_view(decls) =~= Seq::empty());
                    Ok(
                        MirInstr::MethodCall {
                            dest: *dest,
                            recv: *callee,
                            method: "__call__".to_owned(),
                            resolved: Some(name),
                            raises: copy_opt_ty(raises),
                            reference_result: None,
                            result_adapter: None,
                            args: copy_regs(args),
                            kwargs: copy_string_regs(kwargs),
                            recv_place: copy_opt_place(callee_place),
                            recv_writes: true,
                            arg_places: copy_opt_places(arg_places),
                            kwarg_places: copy_opt_places(kwarg_places),
                            capture_accesses: accesses,
                            param_arg_regs: copy_param_args(param_arg_regs),
                            param_decls: decls,
                        },
                    )
                },
                Devirtualization::Stays => Ok(x.copy()),
            },
        },
        _ => Ok(x.copy()),
    }
}

/// Whether one of the types still has parameters.
pub open spec fn any_symbolic(tys: Seq<TyModel>) -> bool {
    exists|i: int| 0 <= i < tys.len() && symbolic(#[trigger] tys[i])
}

fn some_symbolic(tys: &Vec<Ty>) -> (r: bool)
    ensures
        r == any_symbolic(tys_view(*tys)),
{
    let ghost model = tys_view(*tys);
    for i in 0..tys.len()
        invariant
            model == tys_view(*tys),
            forall|j: int| 0 <= j < i ==> !symbolic(#[trigger] model[j]),
    {
        assert(model[i as int] == tys@[i as int]@);
        if is_symbolic(&tys[i]) {
            return true;
        }
    }
    false
}

/// Asking for the body that a retained callable names. A body that the program
/// lacks, or that is still generic, leaves the name.
#[verifier::opaque]
pub open spec fn body_requested(program: MirProgramModel, g: GraphModel, target: Seq<char>) -> Step<Seq<char>> {
    match body_of(program.functions, target) {
        None => Ok((g, target)),
        Some(body) => if any_symbolic(carried_types(body)) {
            Ok((g, target))
        } else {
            enqueued(program, g, target, fresh_bindings(program), Seq::empty())
        },
    }
}

fn request_body(program: &MirProgram, graph: &mut Graph, target: &String) -> (r: Result<String, MonoError>)
    ensures
        names(*final(graph), r, body_requested(program@, old(graph)@, target@)),
{
    proof {
        reveal(body_requested);
    }
    if let Some(body) = find_body(&program.functions, target) {
        let types: Vec<Ty> = function_types(body);
        if !some_symbolic(&types) {
            let none: Vec<InstanceArg> = Vec::new();
            assert(instance_args_view(none) =~= Seq::empty());
            return enqueue(program, graph, target, base_bindings(program), none);
        }
    }
    Ok(target.clone())
}

/// A closure or a function constant, rewritten.
#[verifier::opaque]
pub open spec fn callable_rewritten(
    program: MirProgramModel,
    g: GraphModel,
    x: MirInstrModel,
) -> Step<MirInstrModel> {
    match x {
        MirInstrModel::MakeClosure { dest, function, captures } => match body_requested(program, g, function) {
            Err(e) => Err(e),
            Ok(s) => Ok((s.0, MirInstrModel::MakeClosure { dest, function: s.1, captures })),
        },
        MirInstrModel::Const {
            dest,
            k: ConstModel::Function(target),
        } => match body_requested(program, g, target) {
            Err(e) => Err(e),
            Ok(s) => Ok((s.0, MirInstrModel::Const { dest, k: ConstModel::Function(s.1) })),
        },
        _ => Ok((g, x)),
    }
}

pub(crate) fn rewrite_callable(
    program: &MirProgram,
    graph: &mut Graph,
    x: &MirInstr,
) -> (r: Result<MirInstr, MonoError>)
    ensures
        gives(*final(graph), r, callable_rewritten(program@, old(graph)@, x@)),
{
    proof {
        reveal(callable_rewritten);
    }
    match x {
        MirInstr::MakeClosure { dest, function, captures } => match request_body(program, graph, function) {
            Err(e) => Err(e),
            Ok(name) => Ok(
                MirInstr::MakeClosure { dest: *dest, function: name, captures: copy_captures(captures) },
            ),
        },
        MirInstr::Const { dest, k } => match k {
            Const::Function(target) => match request_body(program, graph, target) {
                Err(e) => Err(e),
                Ok(name) => {
                    let value: Const = Const::Function(name);
                    assert(value@ == ConstModel::Function(name@));
                    Ok(MirInstr::Const { dest: *dest, k: value })
                },
            },
            _ => Ok(x.copy()),
        },
        _ => Ok(x.copy()),
    }
}

/// The field that a place reads, where it reads exactly one.
pub open spec fn read_field(place: MirPlaceModel) -> Option<Seq<char>> {
    if place.proj.len() == 1 {
        match place.proj[0] {
            ProjModel::Field(field) => Some(field),
            _ => None,
        }
    } else {
        None
    }
}

fn field_read<'a>(place: &'a MirPlace) -> (r: Option<&'a String>)
    ensures
        match r {
            Some(field) => read_field(place@) == Some(field@),
            None => read_field(place@) is None,
        },
{
    assert(place@.proj.len() == place.proj@.len());
    if place.proj.len() == 1 {
        assert(place@.proj[0] == place.proj@[0]@);
        match &place.proj[0] {
            Proj::Field(field) => Some(field),
            _ => None,
        }
    } else {
        None
    }
}

/// The constant that reading a field of an optional type gives.
pub open spec fn read_constant(
    program: MirProgramModel,
    receiver: Option<TyModel>,
    field: Seq<char>,
) -> Option<ConstModel> {
    match receiver {
        Some(ty) => parameter_constant(program, ty, field),
        None => None,
    }
}

fn constant_read(program: &MirProgram, receiver: Option<&Ty>, field: &str) -> (r: Option<Const>)
    ensures
        opt_const_view(r) == read_constant(program@, found_view(receiver), field@),
{
    match receiver {
        Some(ty) => value_param_constant(program, ty, field),
        None => None,
    }
}

/// A read of a value parameter through field syntax becomes the constant that the
/// receiver's type carries.
#[verifier::opaque]
pub open spec fn field_rewritten(
    program: MirProgramModel,
    f: MirFunctionModel,
    x: MirInstrModel,
) -> MirInstrModel {
    match x {
        MirInstrModel::GetField { dest, base, field } => match read_constant(
            program,
            table_get(f.reg_types, base.0),
            field,
        ) {
            Some(k) => MirInstrModel::Const { dest, k },
            None => x,
        },
        MirInstrModel::LoadPlace { dest, place } => match read_field(place) {
            Some(field) => match read_constant(program, table_get(f.var_tys, place.root), field) {
                Some(k) => MirInstrModel::Const { dest, k },
                None => x,
            },
            None => x,
        },
        _ => x,
    }
}

pub(crate) fn rewrite_field(program: &MirProgram, function: &MirFunction, x: &MirInstr) -> (r: MirInstr)
    ensures
        r@ == field_rewritten(program@, function@, x@),
{
    proof {
        reveal(field_rewritten);
    }
    match x {
        MirInstr::GetField { dest, base, field } => match constant_read(
            program,
            function.reg_types.get(base.0),
            field,
        ) {
            Some(k) => MirInstr::Const { dest: *dest, k },
            None => x.copy(),
        },
        MirInstr::LoadPlace { dest, place } => match field_read(place) {
            Some(field) => match constant_read(program, function.var_tys.get(place.root), field) {
                Some(k) => MirInstr::Const { dest: *dest, k },
                None => x.copy(),
            },
            None => x.copy(),
        },
        _ => x.copy(),
    }
}

} // verus!
