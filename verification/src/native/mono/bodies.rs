//! Rewriting whole bodies to concrete instances.

use crate::checked::{CheckedIteratorCall, CheckedIteratorCallModel};
use crate::mir::{
    MirBlock, MirBlockModel, MirFunction, MirFunctionModel, MirInstr, MirInstrModel,
    MirSubscriptCall, MirSubscriptCallModel, Reg, blocks_view, copy_opt_place, copy_opt_places,
    copy_string_subscript_args, copy_subscript_args, instrs_view, opt_blocks_view,
    opt_opt_u32_blocks_view,
};
use crate::mir::verify::{found_view, peel_ref, referent_of};
use crate::native::mono::{MonoError, MonoErrorModel};
use crate::native::mono::instances::{Graph, GraphModel, Step, names};
use crate::native::mono::requests::{
    enqueue_intable_instances, intables_requested, iterator_step, loop_prepared, prepare_loop,
    resolve_iterator_step, retarget_subscript_call, subscript_retargeted,
};
use crate::native::mono::retarget::{
    Env, EnvModel, Rewrite, as_method_call, aside, call_rewritten, callable_rewritten,
    field_rewritten, gives, indirect_rewritten, method_rewritten, rewrite_call, rewrite_callable,
    rewrite_field, rewrite_indirect, rewrite_method, rewrites, to_method_call,
};
use crate::native::mono::rules::CallRules;
use crate::table::{table_get, table_set};
use crate::types::{Ty, TyModel};
use vstd::prelude::*;

verus! {

/// A selected subscript call with another target.
pub open spec fn with_target(call: MirSubscriptCallModel, target: Seq<char>) -> MirSubscriptCallModel {
    MirSubscriptCallModel { target, ..call }
}

/// The receiver, the method and the call of a selected subscript.
pub open spec fn selected_subscript(x: MirInstrModel) -> Option<(Reg, Seq<char>, MirSubscriptCallModel)> {
    match x {
        MirInstrModel::Index { base, call, .. } => match call {
            Some(call) => Some((base, "__getitem__"@, call)),
            None => None,
        },
        MirInstrModel::Slice { object, call, .. } => match call {
            Some(call) => Some((object, "__getitem__"@, call)),
            None => None,
        },
        MirInstrModel::MultiIndex { object, call, .. } => match call {
            Some(call) => Some((object, "__getitem__"@, call)),
            None => None,
        },
        MirInstrModel::MultiSet { receiver, call, .. } => Some((receiver, "__setitem__"@, call)),
        _ => None,
    }
}

/// A subscript instruction with its selected call replaced.
pub open spec fn with_selected(x: MirInstrModel, chosen: MirSubscriptCallModel) -> MirInstrModel {
    match x {
        MirInstrModel::Index {
            dest,
            base,
            index,
            base_place,
            index_place,
            intrinsic,
            ..
        } => MirInstrModel::Index {
            dest,
            base,
            index,
            base_place,
            index_place,
            call: Some(chosen),
            intrinsic,
        },
        MirInstrModel::Slice {
            dest,
            object,
            kind,
            lower,
            upper,
            step,
            object_place,
            arg_places,
            intrinsic,
            ..
        } => MirInstrModel::Slice {
            dest,
            object,
            kind,
            lower,
            upper,
            step,
            object_place,
            arg_places,
            call: Some(chosen),
            intrinsic,
        },
        MirInstrModel::MultiIndex {
            dest,
            object,
            args,
            object_place,
            arg_places,
            kwargs,
            kwarg_places,
            ..
        } => MirInstrModel::MultiIndex {
            dest,
            object,
            args,
            object_place,
            arg_places,
            kwargs,
            kwarg_places,
            call: Some(chosen),
        },
        MirInstrModel::MultiSet {
            receiver,
            receiver_place,
            args,
            arg_places,
            value,
            value_place,
            value_keyword,
            ..
        } => MirInstrModel::MultiSet {
            receiver,
            receiver_place,
            args,
            arg_places,
            value,
            value_place,
            value_keyword,
            call: chosen,
        },
        _ => x,
    }
}

/// A subscript with its selected call retargeted to the concrete instance.
/// Intrinsic storage subscripts select no call and stay.
#[verifier::opaque]
pub open spec fn subscript_rewritten<R: CallRules>(
    env: EnvModel<R>,
    g: GraphModel,
    f: MirFunctionModel,
    x: MirInstrModel,
) -> Step<
    MirInstrModel,
> {
    match selected_subscript(x) {
        None => Ok((g, x)),
        Some(s) => match subscript_retargeted(
            env.rules,
            env.program,
            g,
            env.owner,
            f,
            env.facts.constants,
            s.0,
            s.1,
            s.2,
        ) {
            Err(e) => Err(e),
            Ok(t) => Ok((t.0, with_selected(x, with_target(s.2, t.1)))),
        },
    }
}

fn set_target(call: &MirSubscriptCall, target: String) -> (r: MirSubscriptCall)
    ensures
        r@ == with_target(call@, target@),
{
    let mut out: MirSubscriptCall = call.copy();
    out.target = target;
    assert(out@ =~= with_target(call@, target@));
    out
}

fn subscript_parts<'a>(x: &'a MirInstr) -> (r: Option<(Reg, &'static str, &'a MirSubscriptCall)>)
    ensures
        match r {
            Some(s) => selected_subscript(x@) == Some((s.0, s.1@, s.2@)),
            None => selected_subscript(x@) is None,
        },
{
    match x {
        MirInstr::Index { base, call, .. } => match call {
            Some(call) => Some((*base, "__getitem__", call)),
            None => None,
        },
        MirInstr::Slice { object, call, .. } => match call {
            Some(call) => Some((*object, "__getitem__", call)),
            None => None,
        },
        MirInstr::MultiIndex { object, call, .. } => match call {
            Some(call) => Some((*object, "__getitem__", call)),
            None => None,
        },
        MirInstr::MultiSet { receiver, call, .. } => Some((*receiver, "__setitem__", call)),
        _ => None,
    }
}

fn set_selected(x: &MirInstr, chosen: MirSubscriptCall) -> (r: MirInstr)
    ensures
        r@ == with_selected(x@, chosen@),
{
    match x {
        MirInstr::Index { dest, base, index, base_place, index_place, intrinsic, .. } => MirInstr::Index {
            dest: *dest,
            base: *base,
            index: *index,
            base_place: copy_opt_place(base_place),
            index_place: copy_opt_place(index_place),
            call: Some(chosen),
            intrinsic: *intrinsic,
        },
        MirInstr::Slice {
            dest,
            object,
            kind,
            lower,
            upper,
            step,
            object_place,
            arg_places,
            intrinsic,
            ..
        } => MirInstr::Slice {
            dest: *dest,
            object: *object,
            kind: *kind,
            lower: *lower,
            upper: *upper,
            step: *step,
            object_place: copy_opt_place(object_place),
            arg_places: copy_opt_places(arg_places),
            call: Some(chosen),
            intrinsic: *intrinsic,
        },
        MirInstr::MultiIndex {
            dest,
            object,
            args,
            object_place,
            arg_places,
            kwargs,
            kwarg_places,
            ..
        } => MirInstr::MultiIndex {
            dest: *dest,
            object: *object,
            args: copy_subscript_args(args),
            object_place: copy_opt_place(object_place),
            arg_places: copy_opt_places(arg_places),
            kwargs: copy_string_subscript_args(kwargs),
            kwarg_places: copy_opt_places(kwarg_places),
            call: Some(chosen),
        },
        MirInstr::MultiSet {
            receiver,
            receiver_place,
            args,
            arg_places,
            value,
            value_place,
            value_keyword,
            ..
        } => MirInstr::MultiSet {
            receiver: *receiver,
            receiver_place: copy_opt_place(receiver_place),
            args: copy_subscript_args(args),
            arg_places: copy_opt_places(arg_places),
            value: *value,
            value_place: copy_opt_place(value_place),
            value_keyword: *value_keyword,
            call: chosen,
        },
        _ => x.copy(),
    }
}

/// Retargets the selected call of a subscript instruction.
pub fn rewrite_subscript_call<R: CallRules>(
    env: &Env<'_, R>,
    graph: &mut Graph,
    function: &MirFunction,
    x: &MirInstr,
) -> (r: Result<MirInstr, MonoError>)
    ensures
        gives(*final(graph), r, subscript_rewritten(env@, old(graph)@, function@, x@)),
{
    proof {
        reveal(subscript_rewritten);
    }
    match subscript_parts(x) {
        None => Ok(x.copy()),
        Some(s) => match retarget_subscript_call(
            env.rules,
            env.program,
            graph,
            env.owner,
            function,
            &env.facts.constants,
            s.0,
            s.1,
            s.2,
        ) {
            Err(e) => Err(e),
            Ok(target) => Ok(set_selected(x, set_target(s.2, target))),
        },
    }
}

/// An iterator call with another target.
pub open spec fn advancing_to(call: CheckedIteratorCallModel, target: Seq<char>) -> CheckedIteratorCallModel {
    CheckedIteratorCallModel { target, ..call }
}

fn advance_to(call: &CheckedIteratorCall, target: String) -> (r: CheckedIteratorCall)
    ensures
        r@ == advancing_to(call@, target@),
{
    let mut out: CheckedIteratorCall = call.copy();
    out.target = target;
    assert(out@ =~= advancing_to(call@, target@));
    out
}

/// The symbol that an iterator operation is retargeted to. An untyped iterator
/// belongs to a pack loop and stays.
pub open spec fn iteration_retargeted<R: CallRules>(
    env: EnvModel<R>,
    g: GraphModel,
    f: MirFunctionModel,
    iter: u32,
    method: Seq<char>,
    selected: Seq<char>,
    result: Option<TyModel>,
) -> Step<Seq<char>> {
    match table_get(f.var_tys, iter) {
        None => Ok((g, selected)),
        Some(receiver) => match iterator_step(
            env.rules,
            env.program,
            g,
            env.owner,
            receiver,
            method,
            selected,
            result,
        ) {
            Err(e) => Err(e),
            Ok(s) => Ok((s.0, s.1.0)),
        },
    }
}

fn retarget_iteration<R: CallRules>(
    env: &Env<'_, R>,
    graph: &mut Graph,
    function: &MirFunction,
    iter: u32,
    method: &str,
    selected: &String,
    result: Option<&Ty>,
) -> (r: Result<String, MonoError>)
    ensures
        names(
            *final(graph),
            r,
            iteration_retargeted(
                env@,
                old(graph)@,
                function@,
                iter,
                method@,
                selected@,
                found_view(result),
            ),
        ),
{
    match function.var_tys.get(iter) {
        None => Ok(selected.clone()),
        Some(receiver) => match resolve_iterator_step(
            env.rules,
            env.program,
            graph,
            env.owner,
            receiver,
            method,
            selected,
            result,
        ) {
            Err(e) => Err(e),
            Ok(t) => Ok(t.0),
        },
    }
}

/// An iterator operation, retargeted to the concrete instance.
#[verifier::opaque]
pub open spec fn iteration_rewritten<R: CallRules>(
    env: EnvModel<R>,
    g: GraphModel,
    f: MirFunctionModel,
    x: MirInstrModel,
) -> Step<
    MirInstrModel,
> {
    match x {
        MirInstrModel::HasNext { dest, iter, method } => match method {
            None => Ok((g, x)),
            Some(method) => match iteration_retargeted(env, g, f, iter, "__len__"@, method, None) {
                Err(e) => Err(e),
                Ok(s) => Ok((s.0, MirInstrModel::HasNext { dest, iter, method: Some(s.1) })),
            },
        },
        MirInstrModel::Next { dest, iter, call } => match call {
            None => Ok((g, x)),
            Some(call) => match iteration_retargeted(
                env,
                g,
                f,
                iter,
                "__next__"@,
                call.target,
                Some(call.result_ty),
            ) {
                Err(e) => Err(e),
                Ok(s) => Ok((s.0, MirInstrModel::Next { dest, iter, call: Some(advancing_to(call, s.1)) })),
            },
        },
        MirInstrModel::TryNext { dest, yielded, iter, call, exhaustion } => match iteration_retargeted(
            env,
            g,
            f,
            iter,
            "__next__"@,
            call.target,
            Some(call.result_ty),
        ) {
            Err(e) => Err(e),
            Ok(s) => Ok(
                (
                    s.0,
                    MirInstrModel::TryNext { dest, yielded, iter, call: advancing_to(call, s.1), exhaustion },
                ),
            ),
        },
        _ => Ok((g, x)),
    }
}

fn rewrite_iteration<R: CallRules>(env: &Env<'_, R>, graph: &mut Graph, function: &MirFunction, x: &MirInstr) -> (r: Result<
    MirInstr,
    MonoError,
>)
    ensures
        gives(*final(graph), r, iteration_rewritten(env@, old(graph)@, function@, x@)),
{
    proof {
        reveal(iteration_rewritten);
    }
    match x {
        MirInstr::HasNext { dest, iter, method } => match method {
            None => Ok(x.copy()),
            Some(method) => match retarget_iteration(env, graph, function, *iter, "__len__", method, None) {
                Err(e) => Err(e),
                Ok(name) => Ok(MirInstr::HasNext { dest: *dest, iter: *iter, method: Some(name) }),
            },
        },
        MirInstr::Next { dest, iter, call } => match call {
            None => Ok(x.copy()),
            Some(call) => match retarget_iteration(
                env,
                graph,
                function,
                *iter,
                "__next__",
                &call.target,
                Some(&call.result_ty),
            ) {
                Err(e) => Err(e),
                Ok(name) => Ok(
                    MirInstr::Next { dest: *dest, iter: *iter, call: Some(advance_to(call, name)) }
                ),
            },
        },
        MirInstr::TryNext { dest, yielded, iter, call, exhaustion } => match retarget_iteration(
            env,
            graph,
            function,
            *iter,
            "__next__",
            &call.target,
            Some(&call.result_ty),
        ) {
            Err(e) => Err(e),
            Ok(name) => Ok(
                MirInstr::TryNext {
                    dest: *dest,
                    yielded: *yielded,
                    iter: *iter,
                    call: advance_to(call, name),
                    exhaustion: exhaustion.copy(),
                },
            ),
        },
        _ => Ok(x.copy()),
    }
}

/// Building a vector asks for what converts its nominal elements.
pub open spec fn vector_requested<R: CallRules>(
    env: EnvModel<R>,
    g: GraphModel,
    f: MirFunctionModel,
    elems: Seq<Reg>,
    x: MirInstrModel,
) -> Step<MirInstrModel> {
    match intables_requested(env.rules, env.program, g, env.owner, f.reg_types, elems, elems.len()) {
        Err(e) => Err(e),
        Ok(s) => Ok((s.0, x)),
    }
}

/// Rewriting one instruction once it is in the form it is dispatched in.
#[verifier::opaque]
pub open spec fn dispatched_rewritten<R: CallRules>(
    env: EnvModel<R>,
    g: GraphModel,
    f: MirFunctionModel,
    x: MirInstrModel,
) -> Rewrite<MirInstrModel> {
    match x {
        MirInstrModel::Call { .. } => call_rewritten(env, g, f, x),
        MirInstrModel::MakeSimd { elems, .. } => aside(vector_requested(env, g, f, elems, x), f),
        MirInstrModel::MethodCall { .. } => aside(method_rewritten(env, g, f, x), f),
        MirInstrModel::CallIndirect { .. } => aside(indirect_rewritten(env, g, f, x), f),
        MirInstrModel::MakeClosure { .. } => aside(callable_rewritten(env.program, g, x), f),
        MirInstrModel::Const { .. } => aside(callable_rewritten(env.program, g, x), f),
        MirInstrModel::GetField { .. } => Ok((g, f, field_rewritten(env.program, f, x))),
        MirInstrModel::LoadPlace { .. } => Ok((g, f, field_rewritten(env.program, f, x))),
        MirInstrModel::Index { .. } => aside(subscript_rewritten(env, g, f, x), f),
        MirInstrModel::Slice { .. } => aside(subscript_rewritten(env, g, f, x), f),
        MirInstrModel::MultiIndex { .. } => aside(subscript_rewritten(env, g, f, x), f),
        MirInstrModel::MultiSet { .. } => aside(subscript_rewritten(env, g, f, x), f),
        MirInstrModel::HasNext { .. } => aside(iteration_rewritten(env, g, f, x), f),
        MirInstrModel::Next { .. } => aside(iteration_rewritten(env, g, f, x), f),
        MirInstrModel::TryNext { .. } => aside(iteration_rewritten(env, g, f, x), f),
        _ => Ok((g, f, x)),
    }
}

fn rewrite_dispatched<R: CallRules>(
    env: &Env<'_, R>,
    graph: &mut Graph,
    function: &mut MirFunction,
    x: &MirInstr,
) -> (r: Result<MirInstr, MonoError>)
    ensures
        rewrites(
            *final(graph),
            *final(function),
            r,
            dispatched_rewritten(env@, old(graph)@, old(function)@, x@),
        ),
{
    proof {
        reveal(dispatched_rewritten);
    }
    match x {
        MirInstr::Call { .. } => rewrite_call(env, graph, function, x),
        MirInstr::MakeSimd { elems, .. } => {
            if let Err(e) = enqueue_intable_instances(
                env.rules,
                env.program,
                graph,
                env.owner,
                &function.reg_types,
                elems,
            ) {
                return Err(e);
            }
            Ok(x.copy())
        },
        MirInstr::MethodCall { .. } => rewrite_method(env, graph, function, x),
        MirInstr::CallIndirect { .. } => rewrite_indirect(env, graph, function, x),
        MirInstr::MakeClosure { .. } => rewrite_callable(env.program, graph, x),
        MirInstr::Const { .. } => rewrite_callable(env.program, graph, x),
        MirInstr::GetField { .. } => Ok(rewrite_field(env.program, function, x)),
        MirInstr::LoadPlace { .. } => Ok(rewrite_field(env.program, function, x)),
        MirInstr::Index { .. } => rewrite_subscript_call(env, graph, function, x),
        MirInstr::Slice { .. } => rewrite_subscript_call(env, graph, function, x),
        MirInstr::MultiIndex { .. } => rewrite_subscript_call(env, graph, function, x),
        MirInstr::MultiSet { .. } => rewrite_subscript_call(env, graph, function, x),
        MirInstr::HasNext { .. } => rewrite_iteration(env, graph, function, x),
        MirInstr::Next { .. } => rewrite_iteration(env, graph, function, x),
        MirInstr::TryNext { .. } => rewrite_iteration(env, graph, function, x),
        _ => Ok(x.copy()),
    }
}

/// Rewriting one instruction that holds no regions: operations on nominal operands
/// first become the method calls they stand for.
#[verifier::opaque]
pub open spec fn rewritten_leaf<R: CallRules>(
    env: EnvModel<R>,
    g: GraphModel,
    f: MirFunctionModel,
    x: MirInstrModel,
) -> Rewrite<
    MirInstrModel,
> {
    dispatched_rewritten(env, g, f, as_method_call(env.program, f, x))
}

fn rewrite_leaf<R: CallRules>(env: &Env<'_, R>, graph: &mut Graph, function: &mut MirFunction, x: &MirInstr) -> (r: Result<
    MirInstr,
    MonoError,
>)
    ensures
        rewrites(*final(graph), *final(function), r, rewritten_leaf(env@, old(graph)@, old(function)@, x@)),
{
    proof {
        reveal(rewritten_leaf);
    }
    match to_method_call(env.program, function, x) {
        Some(y) => rewrite_dispatched(env, graph, function, &y),
        None => rewrite_dispatched(env, graph, function, x),
    }
}

/// Preparing one loop: every preparation step takes its concrete symbol, and the
/// iterator variable takes the type they give. A pack is iterated as it stands, and
/// an untyped source belongs to a pack loop.
#[verifier::opaque]
pub open spec fn prepared_leaf<R: CallRules>(
    env: EnvModel<R>,
    g: GraphModel,
    f: MirFunctionModel,
    x: MirInstrModel,
) -> Rewrite<
    MirInstrModel,
> {
    match x {
        MirInstrModel::GetIter { source, dest, mode, prepare } => match table_get(f.var_tys, source) {
            None => Ok((g, f, x)),
            Some(ty) => if ty is RuntimePack || ty is Tuple {
                Ok((g, MirFunctionModel { var_tys: table_set(f.var_tys, dest, ty), ..f }, x))
            } else {
                match loop_prepared(env.rules, env.program, g, env.owner, referent_of(ty), prepare) {
                    Err(e) => Err(e),
                    Ok(s) => Ok(
                        (
                            s.0,
                            MirFunctionModel { var_tys: table_set(f.var_tys, dest, s.1.1), ..f },
                            MirInstrModel::GetIter { source, dest, mode, prepare: s.1.0 },
                        ),
                    ),
                }
            },
        },
        _ => Ok((g, f, x)),
    }
}

fn prepare_leaf<R: CallRules>(env: &Env<'_, R>, graph: &mut Graph, function: &mut MirFunction, x: &MirInstr) -> (r: Result<
    MirInstr,
    MonoError,
>)
    ensures
        rewrites(*final(graph), *final(function), r, prepared_leaf(env@, old(graph)@, old(function)@, x@)),
{
    proof {
        reveal(prepared_leaf);
    }
    let ghost f = function@;
    match x {
        MirInstr::GetIter { source, dest, mode, prepare } => {
            let ty: Ty = match function.var_tys.get(*source) {
                None => return Ok(x.copy()),
                Some(ty) => ty.copy(),
            };
            let pack: bool = match &ty {
                Ty::RuntimePack(_) => true,
                Ty::Tuple(_) => true,
                _ => false,
            };
            if pack {
                let ghost model = ty@;
                function.var_tys.insert(*dest, ty);
                assert(function@ =~= MirFunctionModel { var_tys: table_set(f.var_tys, *dest, model), ..f });
                return Ok(x.copy());
            }
            match prepare_loop(env.rules, env.program, graph, env.owner, peel_ref(&ty), prepare) {
                Err(e) => Err(e),
                Ok(s) => {
                    let ghost model = s.1@;
                    function.var_tys.insert(*dest, s.1);
                    assert(
                        function@ =~= MirFunctionModel { var_tys: table_set(f.var_tys, *dest, model), ..f }
                    );
                    Ok(MirInstr::GetIter { source: *source, dest: *dest, mode: *mode, prepare: s.0 })
                },
            }
        },
        _ => Ok(x.copy()),
    }
}

/// Preparing every loop, in one instruction.
pub open spec fn prepared_instr<R: CallRules>(
    env: EnvModel<R>,
    g: GraphModel,
    f: MirFunctionModel,
    x: MirInstrModel,
) -> Rewrite<
    MirInstrModel,
>
    decreases x, 0int,
{
    match x {
        MirInstrModel::Try { body, handler, orelse, finalbody } => match prepared_blocks(env, g, f, body) {
            Err(e) => Err(e),
            Ok(a) => match prepared_handler(env, a.0, a.1, handler) {
                Err(e) => Err(e),
                Ok(b) => match prepared_region(env, b.0, b.1, orelse) {
                    Err(e) => Err(e),
                    Ok(c) => match prepared_region(env, c.0, c.1, finalbody) {
                        Err(e) => Err(e),
                        Ok(d) => Ok(
                            (
                                d.0,
                                d.1,
                                MirInstrModel::Try { body: a.2, handler: b.2, orelse: c.2, finalbody: d.2 },
                            ),
                        ),
                    },
                },
            },
        },
        _ => prepared_leaf(env, g, f, x),
    }
}

/// Preparing every loop, in the handler of a `try`.
pub open spec fn prepared_handler<R: CallRules>(
    env: EnvModel<R>,
    g: GraphModel,
    f: MirFunctionModel,
    handler: Option<(Option<u32>, Seq<MirBlockModel>)>,
) -> Rewrite<Option<(Option<u32>, Seq<MirBlockModel>)>>
    decreases handler, 0int,
{
    match handler {
        Some(h) => match prepared_blocks(env, g, f, h.1) {
            Err(e) => Err(e),
            Ok(a) => Ok((a.0, a.1, Some((h.0, a.2)))),
        },
        None => Ok((g, f, None)),
    }
}

/// Preparing every loop, in an optional region of a `try`.
pub open spec fn prepared_region<R: CallRules>(
    env: EnvModel<R>,
    g: GraphModel,
    f: MirFunctionModel,
    region: Option<Seq<MirBlockModel>>,
) -> Rewrite<Option<Seq<MirBlockModel>>>
    decreases region, 0int,
{
    match region {
        Some(blocks) => match prepared_blocks(env, g, f, blocks) {
            Err(e) => Err(e),
            Ok(a) => Ok((a.0, a.1, Some(a.2))),
        },
        None => Ok((g, f, None)),
    }
}

/// Preparing every loop, in instructions in order.
pub open spec fn prepared_instrs<R: CallRules>(
    env: EnvModel<R>,
    g: GraphModel,
    f: MirFunctionModel,
    xs: Seq<MirInstrModel>,
) -> Rewrite<
    Seq<MirInstrModel>,
>
    decreases xs, 0int,
{
    if xs.len() == 0 {
        Ok((g, f, Seq::empty()))
    } else {
        match prepared_instrs(env, g, f, xs.drop_last()) {
            Err(e) => Err(e),
            Ok(a) => match prepared_instr(env, a.0, a.1, xs.last()) {
                Err(e) => Err(e),
                Ok(b) => Ok((b.0, b.1, a.2.push(b.2))),
            },
        }
    }
}

/// Preparing every loop, in blocks in order.
pub open spec fn prepared_blocks<R: CallRules>(
    env: EnvModel<R>,
    g: GraphModel,
    f: MirFunctionModel,
    xs: Seq<MirBlockModel>,
) -> Rewrite<
    Seq<MirBlockModel>,
>
    decreases xs, 0int,
{
    if xs.len() == 0 {
        Ok((g, f, Seq::empty()))
    } else {
        match prepared_blocks(env, g, f, xs.drop_last()) {
            Err(e) => Err(e),
            Ok(a) => match prepared_instrs(env, a.0, a.1, xs.last().instrs) {
                Err(e) => Err(e),
                Ok(b) => Ok((b.0, b.1, a.2.push(MirBlockModel { instrs: b.2, term: xs.last().term }))),
            },
        }
    }
}

proof fn lemma_prepared_instrs_error<R: CallRules>(
    env: EnvModel<R>,
    g: GraphModel,
    f: MirFunctionModel,
    xs: Seq<MirInstrModel>,
    n: int,
)
    requires
        0 <= n <= xs.len(),
        prepared_instrs(env, g, f, xs.take(n)) is Err,
    ensures
        prepared_instrs(env, g, f, xs) == prepared_instrs(env, g, f, xs.take(n)),
    decreases xs.len() - n,
{
    if n < xs.len() {
        assert(xs.take(n + 1).drop_last() =~= xs.take(n));
        lemma_prepared_instrs_error(env, g, f, xs, n + 1);
    } else {
        assert(xs.take(n) =~= xs);
    }
}

proof fn lemma_prepared_blocks_error<R: CallRules>(
    env: EnvModel<R>,
    g: GraphModel,
    f: MirFunctionModel,
    xs: Seq<MirBlockModel>,
    n: int,
)
    requires
        0 <= n <= xs.len(),
        prepared_blocks(env, g, f, xs.take(n)) is Err,
    ensures
        prepared_blocks(env, g, f, xs) == prepared_blocks(env, g, f, xs.take(n)),
    decreases xs.len() - n,
{
    if n < xs.len() {
        assert(xs.take(n + 1).drop_last() =~= xs.take(n));
        lemma_prepared_blocks_error(env, g, f, xs, n + 1);
    } else {
        assert(xs.take(n) =~= xs);
    }
}

fn prepare_instr<R: CallRules>(env: &Env<'_, R>, graph: &mut Graph, function: &mut MirFunction, x: &MirInstr) -> (r: Result<
    MirInstr,
    MonoError,
>)
    ensures
        rewrites(*final(graph), *final(function), r, prepared_instr(env@, old(graph)@, old(function)@, x@)),
    decreases x, 0int,
{
    match x {
        MirInstr::Try { body, handler, orelse, finalbody } => {
            let body: Vec<MirBlock> = match prepare_blocks(env, graph, function, body) {
                Ok(v) => v,
                Err(e) => return Err(e),
            };
            let handler: Option<(Option<u32>, Vec<MirBlock>)> = match prepare_handler(
                env,
                graph,
                function,
                handler,
            ) {
                Ok(v) => v,
                Err(e) => return Err(e),
            };
            let orelse: Option<Vec<MirBlock>> = match prepare_region(env, graph, function, orelse) {
                Ok(v) => v,
                Err(e) => return Err(e),
            };
            let finalbody: Option<Vec<MirBlock>> = match prepare_region(env, graph, function, finalbody) {
                Ok(v) => v,
                Err(e) => return Err(e),
            };
            Ok(MirInstr::Try { body, handler, orelse, finalbody })
        },
        _ => prepare_leaf(env, graph, function, x),
    }
}

fn prepare_handler<R: CallRules>(
    env: &Env<'_, R>,
    graph: &mut Graph,
    function: &mut MirFunction,
    handler: &Option<(Option<u32>, Vec<MirBlock>)>,
) -> (r: Result<Option<(Option<u32>, Vec<MirBlock>)>, MonoError>)
    ensures
        ({
            let wanted = prepared_handler(
                env@,
                old(graph)@,
                old(function)@,
                opt_opt_u32_blocks_view(*handler),
            );
            match r {
                Ok(h) => wanted == Ok::<
                    (GraphModel, MirFunctionModel, Option<(Option<u32>, Seq<MirBlockModel>)>),
                    MonoErrorModel,
                >((final(graph)@, final(function)@, opt_opt_u32_blocks_view(h))),
                Err(e) => wanted == Err::<
                    (GraphModel, MirFunctionModel, Option<(Option<u32>, Seq<MirBlockModel>)>),
                    MonoErrorModel,
                >(e@),
            }
        }),
    decreases handler, 0int,
{
    match handler {
        Some(h) => match prepare_blocks(env, graph, function, &h.1) {
            Ok(blocks) => Ok(Some((h.0, blocks))),
            Err(e) => Err(e),
        },
        None => Ok(None),
    }
}

fn prepare_region<R: CallRules>(
    env: &Env<'_, R>,
    graph: &mut Graph,
    function: &mut MirFunction,
    region: &Option<Vec<MirBlock>>,
) -> (r: Result<Option<Vec<MirBlock>>, MonoError>)
    ensures
        ({
            let wanted = prepared_region(env@, old(graph)@, old(function)@, opt_blocks_view(*region));
            match r {
                Ok(h) => wanted == Ok::<(GraphModel, MirFunctionModel, Option<Seq<MirBlockModel>>), MonoErrorModel>(
                    (final(graph)@, final(function)@, opt_blocks_view(h)),
                ),
                Err(e) => wanted == Err::<(GraphModel, MirFunctionModel, Option<Seq<MirBlockModel>>), MonoErrorModel>(
                    e@,
                ),
            }
        }),
    decreases region, 0int,
{
    match region {
        Some(blocks) => match prepare_blocks(env, graph, function, blocks) {
            Ok(blocks) => Ok(Some(blocks)),
            Err(e) => Err(e),
        },
        None => Ok(None),
    }
}

fn prepare_instrs<R: CallRules>(env: &Env<'_, R>, graph: &mut Graph, function: &mut MirFunction, xs: &Vec<MirInstr>) -> (r: Result<
    Vec<MirInstr>,
    MonoError,
>)
    ensures
        ({
            let wanted = prepared_instrs(env@, old(graph)@, old(function)@, instrs_view(*xs));
            match r {
                Ok(v) => wanted == Ok::<(GraphModel, MirFunctionModel, Seq<MirInstrModel>), MonoErrorModel>(
                    (final(graph)@, final(function)@, instrs_view(v)),
                ),
                Err(e) => wanted == Err::<(GraphModel, MirFunctionModel, Seq<MirInstrModel>), MonoErrorModel>(e@),
            }
        }),
    decreases xs, 0int,
{
    let ghost (g, f) = (graph@, function@);
    let ghost model = instrs_view(*xs);
    let mut out: Vec<MirInstr> = Vec::new();
    assert(instrs_view(out) =~= Seq::empty());
    for i in 0..xs.len()
        invariant
            g == old(graph)@,
            f == old(function)@,
            model == instrs_view(*xs),
            prepared_instrs(env@, g, f, model.take(i as int)) == Ok::<
                (GraphModel, MirFunctionModel, Seq<MirInstrModel>),
                MonoErrorModel,
            >((graph@, function@, instrs_view(out))),
    {
        assert(model.take(i + 1).drop_last() =~= model.take(i as int));
        assert(model[i as int] == xs@[i as int]@);
        match prepare_instr(env, graph, function, &xs[i]) {
            Ok(x) => {
                let ghost before = instrs_view(out);
                out.push(x);
                assert(instrs_view(out) =~= before.push(x@));
            },
            Err(e) => {
                proof {
                    lemma_prepared_instrs_error(env@, g, f, model, i + 1);
                }
                return Err(e);
            },
        }
    }
    assert(model.take(model.len() as int) =~= model);
    Ok(out)
}

/// Preparing every loop, in blocks in order.
pub fn prepare_blocks<R: CallRules>(env: &Env<'_, R>, graph: &mut Graph, function: &mut MirFunction, xs: &Vec<MirBlock>) -> (r: Result<
    Vec<MirBlock>,
    MonoError,
>)
    ensures
        ({
            let wanted = prepared_blocks(env@, old(graph)@, old(function)@, blocks_view(*xs));
            match r {
                Ok(v) => wanted == Ok::<(GraphModel, MirFunctionModel, Seq<MirBlockModel>), MonoErrorModel>(
                    (final(graph)@, final(function)@, blocks_view(v)),
                ),
                Err(e) => wanted == Err::<(GraphModel, MirFunctionModel, Seq<MirBlockModel>), MonoErrorModel>(e@),
            }
        }),
    decreases xs, 0int,
{
    let ghost (g, f) = (graph@, function@);
    let ghost model = blocks_view(*xs);
    let mut out: Vec<MirBlock> = Vec::new();
    assert(blocks_view(out) =~= Seq::empty());
    for i in 0..xs.len()
        invariant
            g == old(graph)@,
            f == old(function)@,
            model == blocks_view(*xs),
            prepared_blocks(env@, g, f, model.take(i as int)) == Ok::<
                (GraphModel, MirFunctionModel, Seq<MirBlockModel>),
                MonoErrorModel,
            >((graph@, function@, blocks_view(out))),
    {
        assert(model.take(i + 1).drop_last() =~= model.take(i as int));
        assert(model[i as int] == xs@[i as int]@);
        match prepare_instrs(env, graph, function, &xs[i].instrs) {
            Ok(instrs) => {
                let ghost before = blocks_view(out);
                let block: MirBlock = MirBlock { instrs, term: xs[i].term.copy() };
                assert(block@ == MirBlockModel { instrs: instrs_view(instrs), term: xs@[i as int].term@ });
                out.push(block);
                assert(blocks_view(out) =~= before.push(block@));
            },
            Err(e) => {
                proof {
                    lemma_prepared_blocks_error(env@, g, f, model, i + 1);
                }
                return Err(e);
            },
        }
    }
    assert(model.take(model.len() as int) =~= model);
    Ok(out)
}

/// Rewriting every call, in one instruction.
pub open spec fn rewritten_instr<R: CallRules>(
    env: EnvModel<R>,
    g: GraphModel,
    f: MirFunctionModel,
    x: MirInstrModel,
) -> Rewrite<
    MirInstrModel,
>
    decreases x, 0int,
{
    match x {
        MirInstrModel::Try { body, handler, orelse, finalbody } => match rewritten_blocks(env, g, f, body) {
            Err(e) => Err(e),
            Ok(a) => match rewritten_handler(env, a.0, a.1, handler) {
                Err(e) => Err(e),
                Ok(b) => match rewritten_region(env, b.0, b.1, orelse) {
                    Err(e) => Err(e),
                    Ok(c) => match rewritten_region(env, c.0, c.1, finalbody) {
                        Err(e) => Err(e),
                        Ok(d) => Ok(
                            (
                                d.0,
                                d.1,
                                MirInstrModel::Try { body: a.2, handler: b.2, orelse: c.2, finalbody: d.2 },
                            ),
                        ),
                    },
                },
            },
        },
        _ => rewritten_leaf(env, g, f, x),
    }
}

/// Rewriting every call, in the handler of a `try`.
pub open spec fn rewritten_handler<R: CallRules>(
    env: EnvModel<R>,
    g: GraphModel,
    f: MirFunctionModel,
    handler: Option<(Option<u32>, Seq<MirBlockModel>)>,
) -> Rewrite<Option<(Option<u32>, Seq<MirBlockModel>)>>
    decreases handler, 0int,
{
    match handler {
        Some(h) => match rewritten_blocks(env, g, f, h.1) {
            Err(e) => Err(e),
            Ok(a) => Ok((a.0, a.1, Some((h.0, a.2)))),
        },
        None => Ok((g, f, None)),
    }
}

/// Rewriting every call, in an optional region of a `try`.
pub open spec fn rewritten_region<R: CallRules>(
    env: EnvModel<R>,
    g: GraphModel,
    f: MirFunctionModel,
    region: Option<Seq<MirBlockModel>>,
) -> Rewrite<Option<Seq<MirBlockModel>>>
    decreases region, 0int,
{
    match region {
        Some(blocks) => match rewritten_blocks(env, g, f, blocks) {
            Err(e) => Err(e),
            Ok(a) => Ok((a.0, a.1, Some(a.2))),
        },
        None => Ok((g, f, None)),
    }
}

/// Rewriting every call, in instructions in order.
pub open spec fn rewritten_instrs<R: CallRules>(
    env: EnvModel<R>,
    g: GraphModel,
    f: MirFunctionModel,
    xs: Seq<MirInstrModel>,
) -> Rewrite<
    Seq<MirInstrModel>,
>
    decreases xs, 0int,
{
    if xs.len() == 0 {
        Ok((g, f, Seq::empty()))
    } else {
        match rewritten_instrs(env, g, f, xs.drop_last()) {
            Err(e) => Err(e),
            Ok(a) => match rewritten_instr(env, a.0, a.1, xs.last()) {
                Err(e) => Err(e),
                Ok(b) => Ok((b.0, b.1, a.2.push(b.2))),
            },
        }
    }
}

/// Rewriting every call, in blocks in order.
pub open spec fn rewritten_blocks<R: CallRules>(
    env: EnvModel<R>,
    g: GraphModel,
    f: MirFunctionModel,
    xs: Seq<MirBlockModel>,
) -> Rewrite<
    Seq<MirBlockModel>,
>
    decreases xs, 0int,
{
    if xs.len() == 0 {
        Ok((g, f, Seq::empty()))
    } else {
        match rewritten_blocks(env, g, f, xs.drop_last()) {
            Err(e) => Err(e),
            Ok(a) => match rewritten_instrs(env, a.0, a.1, xs.last().instrs) {
                Err(e) => Err(e),
                Ok(b) => Ok((b.0, b.1, a.2.push(MirBlockModel { instrs: b.2, term: xs.last().term }))),
            },
        }
    }
}

proof fn lemma_rewritten_instrs_error<R: CallRules>(
    env: EnvModel<R>,
    g: GraphModel,
    f: MirFunctionModel,
    xs: Seq<MirInstrModel>,
    n: int,
)
    requires
        0 <= n <= xs.len(),
        rewritten_instrs(env, g, f, xs.take(n)) is Err,
    ensures
        rewritten_instrs(env, g, f, xs) == rewritten_instrs(env, g, f, xs.take(n)),
    decreases xs.len() - n,
{
    if n < xs.len() {
        assert(xs.take(n + 1).drop_last() =~= xs.take(n));
        lemma_rewritten_instrs_error(env, g, f, xs, n + 1);
    } else {
        assert(xs.take(n) =~= xs);
    }
}

proof fn lemma_rewritten_blocks_error<R: CallRules>(
    env: EnvModel<R>,
    g: GraphModel,
    f: MirFunctionModel,
    xs: Seq<MirBlockModel>,
    n: int,
)
    requires
        0 <= n <= xs.len(),
        rewritten_blocks(env, g, f, xs.take(n)) is Err,
    ensures
        rewritten_blocks(env, g, f, xs) == rewritten_blocks(env, g, f, xs.take(n)),
    decreases xs.len() - n,
{
    if n < xs.len() {
        assert(xs.take(n + 1).drop_last() =~= xs.take(n));
        lemma_rewritten_blocks_error(env, g, f, xs, n + 1);
    } else {
        assert(xs.take(n) =~= xs);
    }
}

fn rewrite_instr<R: CallRules>(env: &Env<'_, R>, graph: &mut Graph, function: &mut MirFunction, x: &MirInstr) -> (r: Result<
    MirInstr,
    MonoError,
>)
    ensures
        rewrites(*final(graph), *final(function), r, rewritten_instr(env@, old(graph)@, old(function)@, x@)),
    decreases x, 0int,
{
    match x {
        MirInstr::Try { body, handler, orelse, finalbody } => {
            let body: Vec<MirBlock> = match rewrite_blocks(env, graph, function, body) {
                Ok(v) => v,
                Err(e) => return Err(e),
            };
            let handler: Option<(Option<u32>, Vec<MirBlock>)> = match rewrite_handler(
                env,
                graph,
                function,
                handler,
            ) {
                Ok(v) => v,
                Err(e) => return Err(e),
            };
            let orelse: Option<Vec<MirBlock>> = match rewrite_region(env, graph, function, orelse) {
                Ok(v) => v,
                Err(e) => return Err(e),
            };
            let finalbody: Option<Vec<MirBlock>> = match rewrite_region(env, graph, function, finalbody) {
                Ok(v) => v,
                Err(e) => return Err(e),
            };
            Ok(MirInstr::Try { body, handler, orelse, finalbody })
        },
        _ => rewrite_leaf(env, graph, function, x),
    }
}

fn rewrite_handler<R: CallRules>(
    env: &Env<'_, R>,
    graph: &mut Graph,
    function: &mut MirFunction,
    handler: &Option<(Option<u32>, Vec<MirBlock>)>,
) -> (r: Result<Option<(Option<u32>, Vec<MirBlock>)>, MonoError>)
    ensures
        ({
            let wanted = rewritten_handler(
                env@,
                old(graph)@,
                old(function)@,
                opt_opt_u32_blocks_view(*handler),
            );
            match r {
                Ok(h) => wanted == Ok::<
                    (GraphModel, MirFunctionModel, Option<(Option<u32>, Seq<MirBlockModel>)>),
                    MonoErrorModel,
                >((final(graph)@, final(function)@, opt_opt_u32_blocks_view(h))),
                Err(e) => wanted == Err::<
                    (GraphModel, MirFunctionModel, Option<(Option<u32>, Seq<MirBlockModel>)>),
                    MonoErrorModel,
                >(e@),
            }
        }),
    decreases handler, 0int,
{
    match handler {
        Some(h) => match rewrite_blocks(env, graph, function, &h.1) {
            Ok(blocks) => Ok(Some((h.0, blocks))),
            Err(e) => Err(e),
        },
        None => Ok(None),
    }
}

fn rewrite_region<R: CallRules>(
    env: &Env<'_, R>,
    graph: &mut Graph,
    function: &mut MirFunction,
    region: &Option<Vec<MirBlock>>,
) -> (r: Result<Option<Vec<MirBlock>>, MonoError>)
    ensures
        ({
            let wanted = rewritten_region(env@, old(graph)@, old(function)@, opt_blocks_view(*region));
            match r {
                Ok(h) => wanted == Ok::<(GraphModel, MirFunctionModel, Option<Seq<MirBlockModel>>), MonoErrorModel>(
                    (final(graph)@, final(function)@, opt_blocks_view(h)),
                ),
                Err(e) => wanted == Err::<(GraphModel, MirFunctionModel, Option<Seq<MirBlockModel>>), MonoErrorModel>(
                    e@,
                ),
            }
        }),
    decreases region, 0int,
{
    match region {
        Some(blocks) => match rewrite_blocks(env, graph, function, blocks) {
            Ok(blocks) => Ok(Some(blocks)),
            Err(e) => Err(e),
        },
        None => Ok(None),
    }
}

fn rewrite_instrs<R: CallRules>(env: &Env<'_, R>, graph: &mut Graph, function: &mut MirFunction, xs: &Vec<MirInstr>) -> (r: Result<
    Vec<MirInstr>,
    MonoError,
>)
    ensures
        ({
            let wanted = rewritten_instrs(env@, old(graph)@, old(function)@, instrs_view(*xs));
            match r {
                Ok(v) => wanted == Ok::<(GraphModel, MirFunctionModel, Seq<MirInstrModel>), MonoErrorModel>(
                    (final(graph)@, final(function)@, instrs_view(v)),
                ),
                Err(e) => wanted == Err::<(GraphModel, MirFunctionModel, Seq<MirInstrModel>), MonoErrorModel>(e@),
            }
        }),
    decreases xs, 0int,
{
    let ghost (g, f) = (graph@, function@);
    let ghost model = instrs_view(*xs);
    let mut out: Vec<MirInstr> = Vec::new();
    assert(instrs_view(out) =~= Seq::empty());
    for i in 0..xs.len()
        invariant
            g == old(graph)@,
            f == old(function)@,
            model == instrs_view(*xs),
            rewritten_instrs(env@, g, f, model.take(i as int)) == Ok::<
                (GraphModel, MirFunctionModel, Seq<MirInstrModel>),
                MonoErrorModel,
            >((graph@, function@, instrs_view(out))),
    {
        assert(model.take(i + 1).drop_last() =~= model.take(i as int));
        assert(model[i as int] == xs@[i as int]@);
        match rewrite_instr(env, graph, function, &xs[i]) {
            Ok(x) => {
                let ghost before = instrs_view(out);
                out.push(x);
                assert(instrs_view(out) =~= before.push(x@));
            },
            Err(e) => {
                proof {
                    lemma_rewritten_instrs_error(env@, g, f, model, i + 1);
                }
                return Err(e);
            },
        }
    }
    assert(model.take(model.len() as int) =~= model);
    Ok(out)
}

/// Rewriting every call, in blocks in order.
pub fn rewrite_blocks<R: CallRules>(env: &Env<'_, R>, graph: &mut Graph, function: &mut MirFunction, xs: &Vec<MirBlock>) -> (r: Result<
    Vec<MirBlock>,
    MonoError,
>)
    ensures
        ({
            let wanted = rewritten_blocks(env@, old(graph)@, old(function)@, blocks_view(*xs));
            match r {
                Ok(v) => wanted == Ok::<(GraphModel, MirFunctionModel, Seq<MirBlockModel>), MonoErrorModel>(
                    (final(graph)@, final(function)@, blocks_view(v)),
                ),
                Err(e) => wanted == Err::<(GraphModel, MirFunctionModel, Seq<MirBlockModel>), MonoErrorModel>(e@),
            }
        }),
    decreases xs, 0int,
{
    let ghost (g, f) = (graph@, function@);
    let ghost model = blocks_view(*xs);
    let mut out: Vec<MirBlock> = Vec::new();
    assert(blocks_view(out) =~= Seq::empty());
    for i in 0..xs.len()
        invariant
            g == old(graph)@,
            f == old(function)@,
            model == blocks_view(*xs),
            rewritten_blocks(env@, g, f, model.take(i as int)) == Ok::<
                (GraphModel, MirFunctionModel, Seq<MirBlockModel>),
                MonoErrorModel,
            >((graph@, function@, blocks_view(out))),
    {
        assert(model.take(i + 1).drop_last() =~= model.take(i as int));
        assert(model[i as int] == xs@[i as int]@);
        match rewrite_instrs(env, graph, function, &xs[i].instrs) {
            Ok(instrs) => {
                let ghost before = blocks_view(out);
                let block: MirBlock = MirBlock { instrs, term: xs[i].term.copy() };
                assert(block@ == MirBlockModel { instrs: instrs_view(instrs), term: xs@[i as int].term@ });
                out.push(block);
                assert(blocks_view(out) =~= before.push(block@));
            },
            Err(e) => {
                proof {
                    lemma_rewritten_blocks_error(env@, g, f, model, i + 1);
                }
                return Err(e);
            },
        }
    }
    assert(model.take(model.len() as int) =~= model);
    Ok(out)
}

} // verus!
