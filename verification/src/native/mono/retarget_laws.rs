//! What retargeting promises: a call of a function in the program goes to an instance of
//! that function, with the arguments that it had.

use crate::ast::operator_method;
use crate::mir::{MirFunctionModel, MirInstrModel, MirProgramModel, Reg};
use crate::native::mono::instances::{
    GraphModel, InstanceKeyModel, enqueued, known_symbol, owner_instance,
};
use crate::native::mono::retarget::{
    EnvModel, as_method_call, builtin_call, call_requested, call_rewritten, direct_call,
    holds_struct, method_rewritten, respelled,
};
use crate::native::mono::rules::{CallRules, body_of};
use crate::native::mono::unify::peeled;
use crate::symbol::{InstanceArgModel, template_of};
use crate::table::table_get;
use crate::types::TyModel;
use vstd::prelude::*;

verus! {

/// Whether a symbol is on record as an instance of a template.
pub open spec fn is_instance(g: GraphModel, template: Seq<char>, symbol: Seq<char>) -> bool {
    exists|i: int|
        0 <= i < g.instances.len() && (#[trigger] g.instances[i]).0.template == template && g.instances[i].1 == symbol
}

proof fn lemma_known(instances: Seq<(InstanceKeyModel, Seq<char>)>, key: InstanceKeyModel)
    requires
        known_symbol(instances, key) is Some,
    ensures
        exists|i: int|
            0 <= i < instances.len() && (#[trigger] instances[i]).0 == key && Some(instances[i].1) == known_symbol(
                instances,
                key,
            ),
    decreases instances.len(),
{
    if instances[0].0 == key {
        assert(instances[0].0 == key && Some(instances[0].1) == known_symbol(instances, key));
    } else {
        let rest = instances.skip(1);
        lemma_known(rest, key);
        let i = choose|i: int|
            0 <= i < rest.len() && (#[trigger] rest[i]).0 == key && Some(rest[i].1) == known_symbol(rest, key);
        assert(instances[i + 1] == rest[i]);
    }
}

/// Asking for an instance gives a symbol that is on record for the template.
pub proof fn law_requested_is_recorded(
    program: MirProgramModel,
    g: GraphModel,
    template: Seq<char>,
    b: crate::native::mono::bindings::BindingsModel,
    arguments: Seq<InstanceArgModel>,
)
    requires
        enqueued(program, g, template, b, arguments) is Ok,
    ensures
        ({
            let (after, name) = enqueued(program, g, template, b, arguments)->Ok_0;
            is_instance(after, template, name)
        }),
{
    reveal(enqueued);
    let key = InstanceKeyModel { template, arguments, owner: owner_instance(b) };
    let (after, name) = enqueued(program, g, template, b, arguments)->Ok_0;
    if known_symbol(g.instances, key) is Some {
        lemma_known(g.instances, key);
        let i = choose|i: int|
            0 <= i < g.instances.len() && (#[trigger] g.instances[i]).0 == key
                && Some(g.instances[i].1) == known_symbol(
                g.instances,
                key,
            );
        assert(after.instances[i].0.template == template);
    } else {
        let n = g.instances.len() as int;
        assert(after.instances[n] == (key, name));
    }
}

/// A direct call of a function with a body goes to an instance of that function; its
/// destination and its arguments stay, and its stated parameters carry no values any more.
#[verifier::rlimit(40)]
pub proof fn law_call_retargeted<R: CallRules>(
    env: EnvModel<R>,
    g: GraphModel,
    f: MirFunctionModel,
    x: MirInstrModel,
)
    requires
        x is Call,
        call_rewritten(env, g, f, x) is Ok,
    ensures
        ({
            let (after, function, y) = call_rewritten(env, g, f, x)->Ok_0;
            &&& y is Call
            &&& y->Call_dest == x->Call_dest
            &&& y->Call_args == x->Call_args
            &&& y->Call_kwargs == x->Call_kwargs
            &&& y->Call_arg_places == x->Call_arg_places
            &&& y->Call_raises == x->Call_raises
            &&& y->Call_param_arg_regs.len() == x->Call_param_arg_regs.len()
            &&& body_of(env.program.functions, x->Call_func.0) is Some ==> {
                &&& is_instance(after, x->Call_func.0, y->Call_func.0)
                &&& function == f
                &&& forall|i: int|
                    0 <= i < y->Call_param_arg_regs.len() ==> (#[trigger] y->Call_param_arg_regs[i]).value is None
                        && y->Call_param_arg_regs[i].name == x->Call_param_arg_regs[i].name
            }
        }),
{
    reveal(call_rewritten);
    reveal(direct_call);
    reveal(builtin_call);
    reveal(crate::native::mono::retarget::constructor_call);
    reveal(call_requested);
    let target = x->Call_func.0;
    if body_of(env.program.functions, target) is Some {
        let receiver = if crate::text::first_occurrence(target, ".__init__"@) is Some && table_get(
            f.reg_types,
            x->Call_dest.0,
        ) is Some {
            Some(x->Call_dest)
        } else {
            None
        };
        let s = crate::native::mono::infer::inferred_call(
            env.rules,
            env.program,
            crate::native::mono::infer::CallModel {
                owner: env.owner,
                target,
                caller: f,
                args: x->Call_args,
                kwargs: x->Call_kwargs,
            },
            env.facts,
            receiver,
            x->Call_dest,
            x->Call_param_arg_regs,
        );
        assert(s is Ok);
        law_requested_is_recorded(env.program, g, target, s->Ok_0.0, s->Ok_0.1);
    }
}

/// A method call keeps its receiver, its arguments and its method.
pub proof fn law_method_retargeted<R: CallRules>(
    env: EnvModel<R>,
    g: GraphModel,
    f: MirFunctionModel,
    x: MirInstrModel,
)
    requires
        x is MethodCall,
        method_rewritten(env, g, f, x) is Ok,
    ensures
        ({
            let (after, y) = method_rewritten(env, g, f, x)->Ok_0;
            &&& y is MethodCall
            &&& y->MethodCall_dest == x->MethodCall_dest
            &&& y->MethodCall_recv == x->MethodCall_recv
            &&& y->MethodCall_method == x->MethodCall_method
            &&& y->MethodCall_args == x->MethodCall_args
            &&& y->MethodCall_kwargs == x->MethodCall_kwargs
            &&& y->MethodCall_recv_place == x->MethodCall_recv_place
        }),
{
    reveal(method_rewritten);
}

/// An operator on a struct becomes the call of its method on the left operand with the
/// right one; on anything else, and for membership, it stays an operator.
pub proof fn law_operator_becomes_method(program: MirProgramModel, f: MirFunctionModel, x: MirInstrModel)
    requires
        x is BinOp,
    ensures
        ({
            let y = as_method_call(program, f, x);
            if holds_struct(f.reg_types, x->BinOp_a) && operator_method(x->BinOp_op) is Some && !(x->BinOp_op is In)
                && !(x->BinOp_op is NotIn) {
                &&& y is MethodCall
                &&& y->MethodCall_dest == x->BinOp_dest
                &&& y->MethodCall_recv == x->BinOp_a
                &&& y->MethodCall_args == seq![x->BinOp_b]
                &&& Some(y->MethodCall_method) == operator_method(x->BinOp_op)
                &&& y->MethodCall_resolved == x->BinOp_resolved
            } else {
                y == x
            }
        }),
        holds_struct(f.reg_types, x->BinOp_a) <==> table_get(f.reg_types, x->BinOp_a.0) is Some && peeled(
            table_get(f.reg_types, x->BinOp_a.0)->Some_0,
        ) is Struct,
{
    reveal(as_method_call);
}

/// A constructor is respelled to the instance that its destination has, and only where
/// that is an instance of the same template.
pub proof fn law_constructor_respelled(f: MirFunctionModel, dest: Reg, func: Seq<char>)
    ensures
        respelled(f, dest, func) == func || (template_of(respelled(f, dest, func)) == func && (table_get(
            f.reg_types,
            dest.0,
        ) matches Some(TyModel::Struct(name, _)) && name == respelled(f, dest, func))),
        table_get(f.reg_types, dest.0) matches Some(TyModel::Struct(name, _))
            ==> (template_of(name) == func ==> respelled(
            f,
            dest,
            func,
        ) == name),
{
}

} // verus!
