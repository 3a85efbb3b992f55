//! What building keeps: every instance that is asked for is built.

use crate::ct::CtValueModel;
use crate::mir::{
    MirBlockModel, MirFunctionDeclarationModel, MirFunctionModel, MirInstrModel, MirParamArgModel,
    MirProgramModel, MirStructDeclarationModel, MirSubscriptCallModel, Reg,
};
use crate::native::mono::bindings::BindingsModel;
use crate::native::mono::bodies::{
    dispatched_rewritten, iteration_retargeted, iteration_rewritten, prepared_blocks,
    prepared_handler, prepared_instr, prepared_instrs, prepared_leaf, prepared_region,
    rewritten_blocks, rewritten_handler, rewritten_instr, rewritten_instrs, rewritten_leaf,
    rewritten_region, subscript_rewritten, vector_requested,
};
use crate::native::mono::discover::{
    instance_discovered, lifecycle_candidate, lifecycle_candidates, lifecycle_requested,
    structs_discovered, type_discovered, types_discovered,
};
use crate::native::mono::function::nested_types;
use crate::native::mono::infer::fresh_bindings;
use crate::native::mono::instances::{
    GraphModel, InstanceKeyModel, Step, empty_graph, enqueued, known_symbol, owner_instance,
    symbol_taken,
};
use crate::native::mono::requests::{
    advances, display_requested, displays_requested, hash_leaf_requested, intable_requested,
    intables_requested, iterator_step, loop_prepared, method_requested, normalized, prepared,
    receiver_requested, subscript_retargeted,
};
use crate::native::mono::retarget::{
    EnvModel, Rewrite, body_requested, builtin_call, call_requested, call_rewritten,
    callable_rewritten, constructor_call, constructor_requested, devirtualized, direct_call,
    indirect_rewritten, leaf_requested, method_resolved, method_rewritten, struct_method,
};
use crate::native::mono::rules::CallRules;
use crate::native::mono::specialize::{
    Built, INSTANCE_BUDGET, assembled, blocks_specialized, body_specialized,
    declaration_specialized, declaration_symbols, drained, entries_requested, entry_requested,
    function_symbols, is_built, law_sorted_positions, lemma_place_behind, materialized,
    place_behind, sorted_positions, specialized, symbol_keys,
};
use crate::symbol::InstanceArgModel;
use crate::types::{TyArgModel, TyModel};
use vstd::prelude::*;

verus! {

/// Whether no two instances have one key.
pub open spec fn keys_distinct(instances: Seq<(InstanceKeyModel, Seq<char>)>) -> bool {
    forall|i: int, j: int| 0 <= i < j < instances.len() ==> (#[trigger] instances[i]).0 != (#[trigger] instances[j]).0
}

/// Whether a queue and a list of instances grew together: what was there stays in
/// place, and every new instance waits in the queue.
#[verifier::opaque]
pub open spec fn grown(
    q: Seq<(InstanceKeyModel, BindingsModel)>,
    n: Seq<(InstanceKeyModel, Seq<char>)>,
    r: Seq<(InstanceKeyModel, BindingsModel)>,
    m: Seq<(InstanceKeyModel, Seq<char>)>,
) -> bool {
    &&& n.len() <= m.len()
    &&& r.len() - q.len() == m.len() - n.len()
    &&& forall|i: int| 0 <= i < q.len() ==> #[trigger] r[i] == q[i]
    &&& forall|i: int| 0 <= i < n.len() ==> #[trigger] m[i] == n[i]
    &&& forall|i: int| n.len() <= i < m.len() ==> (#[trigger] m[i]).0 == r[i - n.len() + q.len()].0
    &&& keys_distinct(n) ==> keys_distinct(m)
}

/// Whether a graph grew to another, with the declarations as they were.
pub open spec fn extends(g: GraphModel, h: GraphModel) -> bool {
    grown(g.queue, g.instances, h.queue, h.instances) && h.declarations == g.declarations
}

/// Whether a step lets the graph grow.
pub open spec fn step_grows<T>(g: GraphModel, step: Step<T>) -> bool {
    match step {
        Ok(s) => extends(g, s.0),
        Err(_) => true,
    }
}

/// Whether a rewriting lets the graph grow.
pub open spec fn rewrite_grows<T>(g: GraphModel, step: Rewrite<T>) -> bool {
    match step {
        Ok(s) => extends(g, s.0),
        Err(_) => true,
    }
}

/// Growing is reflexive and transitive.
proof fn lemma_growth()
    ensures
        forall|
            q: Seq<(InstanceKeyModel, BindingsModel)>,
            n: Seq<(InstanceKeyModel, Seq<char>)>,
        | #[trigger] grown(q, n, q, n),
        forall|
            q1: Seq<(InstanceKeyModel, BindingsModel)>,
            n1: Seq<(InstanceKeyModel, Seq<char>)>,
            q2: Seq<(InstanceKeyModel, BindingsModel)>,
            n2: Seq<(InstanceKeyModel, Seq<char>)>,
            q3: Seq<(InstanceKeyModel, BindingsModel)>,
            n3: Seq<(InstanceKeyModel, Seq<char>)>,
        | #[trigger] grown(q1, n1, q2, n2) && #[trigger] grown(q2, n2, q3, n3) ==> grown(q1, n1, q3, n3),
{
    reveal(grown);
    assert forall|
        q1: Seq<(InstanceKeyModel, BindingsModel)>,
        n1: Seq<(InstanceKeyModel, Seq<char>)>,
        q2: Seq<(InstanceKeyModel, BindingsModel)>,
        n2: Seq<(InstanceKeyModel, Seq<char>)>,
        q3: Seq<(InstanceKeyModel, BindingsModel)>,
        n3: Seq<(InstanceKeyModel, Seq<char>)>,
    | #[trigger] grown(q1, n1, q2, n2) && #[trigger] grown(q2, n2, q3, n3) implies grown(q1, n1, q3, n3) by {
        assert forall|i: int| 0 <= i < q1.len() implies #[trigger] q3[i] == q1[i] by {
            assert(q2[i] == q1[i]);
        }
        assert forall|i: int| 0 <= i < n1.len() implies #[trigger] n3[i] == n1[i] by {
            assert(n2[i] == n1[i]);
        }
        assert forall|i: int| n1.len() <= i < n3.len() implies (#[trigger] n3[i]).0 == q3[i - n1.len() + q1.len()].0 by {
            if i < n2.len() {
                assert(n3[i] == n2[i]);
                assert(q3[i - n1.len() + q1.len()] == q2[i - n1.len() + q1.len()]);
            }
        }
    }
}

proof fn lemma_unknown(instances: Seq<(InstanceKeyModel, Seq<char>)>, key: InstanceKeyModel)
    requires
        known_symbol(instances, key) is None,
    ensures
        forall|i: int| 0 <= i < instances.len() ==> (#[trigger] instances[i]).0 != key,
    decreases instances.len(),
{
    if instances.len() > 0 {
        let rest = instances.skip(1);
        lemma_unknown(rest, key);
        assert forall|i: int| 0 <= i < instances.len() implies (#[trigger] instances[i]).0 != key by {
            if i > 0 {
                assert(rest[i - 1] == instances[i]);
            }
        }
    }
}

proof fn lemma_enqueued_grows()
    ensures
        forall|
            program: MirProgramModel,
            g: GraphModel,
            template: Seq<char>,
            b: BindingsModel,
            arguments: Seq<InstanceArgModel>,
        | step_grows(g, #[trigger] enqueued(program, g, template, b, arguments)),
{
    assert forall|
        program: MirProgramModel,
        g: GraphModel,
        template: Seq<char>,
        b: BindingsModel,
        arguments: Seq<InstanceArgModel>,
    | step_grows(g, #[trigger] enqueued(program, g, template, b, arguments)) by {
        reveal(enqueued);
        reveal(grown);
        let key = InstanceKeyModel { template, arguments, owner: owner_instance(b) };
        if known_symbol(g.instances, key) is None {
            lemma_unknown(g.instances, key);
        }
    }
}

proof fn lemma_method_requested_grows<R: CallRules>()
    ensures
        forall|
            rules: R,
            program: MirProgramModel,
            g: GraphModel,
            owner: Seq<char>,
            receiver: TyModel,
            method: Seq<char>,
            argc: nat,
            extra: Seq<(Seq<char>, TyModel)>,
            sugar: bool,
        | step_grows(g, #[trigger] method_requested(rules, program, g, owner, receiver, method, argc, extra, sugar)),
{
    reveal(method_requested);
    lemma_enqueued_grows();
    lemma_growth();
    assert forall|
        rules: R,
        program: MirProgramModel,
        g: GraphModel,
        owner: Seq<char>,
        receiver: TyModel,
        method: Seq<char>,
        argc: nat,
        extra: Seq<(Seq<char>, TyModel)>,
        sugar: bool,
    | step_grows(g, #[trigger] method_requested(rules, program, g, owner, receiver, method, argc, extra, sugar)) by {
    }
}

proof fn lemma_display_requested_grows<R: CallRules>()
    ensures
        forall|
            rules: R,
            program: MirProgramModel,
            g: GraphModel,
            owner: Seq<char>,
            regs: Seq<(u32, TyModel)>,
            arg: Reg,
        | step_grows(g, #[trigger] display_requested(rules, program, g, owner, regs, arg)),
{
    reveal(display_requested);
    lemma_method_requested_grows::<R>();
    lemma_growth();
    assert forall|
        rules: R,
        program: MirProgramModel,
        g: GraphModel,
        owner: Seq<char>,
        regs: Seq<(u32, TyModel)>,
        arg: Reg,
    | step_grows(g, #[trigger] display_requested(rules, program, g, owner, regs, arg)) by {
    }
}

proof fn lemma_from_displays_requested<R: CallRules>(
    rules: R,
    program: MirProgramModel,
    g: GraphModel,
    owner: Seq<char>,
    regs: Seq<(u32, TyModel)>,
    args: Seq<Reg>,
    n: nat,
)
    ensures
        step_grows(g, displays_requested(rules, program, g, owner, regs, args, n)),
    decreases n,
{
    lemma_display_requested_grows::<R>();
    lemma_growth();
    if n > 0 {
        lemma_from_displays_requested(rules, program, g, owner, regs, args, (n - 1) as nat);
    }
}

proof fn lemma_displays_requested_grows<R: CallRules>()
    ensures
        forall|
            rules: R,
            program: MirProgramModel,
            g: GraphModel,
            owner: Seq<char>,
            regs: Seq<(u32, TyModel)>,
            args: Seq<Reg>,
            n: nat,
        | step_grows(g, #[trigger] displays_requested(rules, program, g, owner, regs, args, n)),
{
    assert forall|
        rules: R,
        program: MirProgramModel,
        g: GraphModel,
        owner: Seq<char>,
        regs: Seq<(u32, TyModel)>,
        args: Seq<Reg>,
        n: nat,
    | step_grows(g, #[trigger] displays_requested(rules, program, g, owner, regs, args, n)) by {
        lemma_from_displays_requested(rules, program, g, owner, regs, args, n);
    }
}

proof fn lemma_hash_leaf_requested_grows<R: CallRules>()
    ensures
        forall|
            rules: R,
            program: MirProgramModel,
            g: GraphModel,
            owner: Seq<char>,
            regs: Seq<(u32, TyModel)>,
            hasher: Reg,
            receiver: TyModel,
        | step_grows(g, #[trigger] hash_leaf_requested(rules, program, g, owner, regs, hasher, receiver)),
{
    reveal(hash_leaf_requested);
    lemma_method_requested_grows::<R>();
    lemma_growth();
    assert forall|
        rules: R,
        program: MirProgramModel,
        g: GraphModel,
        owner: Seq<char>,
        regs: Seq<(u32, TyModel)>,
        hasher: Reg,
        receiver: TyModel,
    | step_grows(g, #[trigger] hash_leaf_requested(rules, program, g, owner, regs, hasher, receiver)) by {
    }
}

proof fn lemma_receiver_requested_grows()
    ensures
        forall|
            program: MirProgramModel,
            g: GraphModel,
            owner: Seq<char>,
            target: Seq<char>,
            receiver: TyModel,
            result: Option<TyModel>,
        | step_grows(g, #[trigger] receiver_requested(program, g, owner, target, receiver, result)),
{
    reveal(receiver_requested);
    lemma_enqueued_grows();
    lemma_growth();
    assert forall|
        program: MirProgramModel,
        g: GraphModel,
        owner: Seq<char>,
        target: Seq<char>,
        receiver: TyModel,
        result: Option<TyModel>,
    | step_grows(g, #[trigger] receiver_requested(program, g, owner, target, receiver, result)) by {
    }
}

proof fn lemma_intable_requested_grows<R: CallRules>()
    ensures
        forall|
            rules: R,
            program: MirProgramModel,
            g: GraphModel,
            owner: Seq<char>,
            regs: Seq<(u32, TyModel)>,
            arg: Reg,
        | step_grows(g, #[trigger] intable_requested(rules, program, g, owner, regs, arg)),
{
    reveal(intable_requested);
    lemma_receiver_requested_grows();
    lemma_growth();
    assert forall|
        rules: R,
        program: MirProgramModel,
        g: GraphModel,
        owner: Seq<char>,
        regs: Seq<(u32, TyModel)>,
        arg: Reg,
    | step_grows(g, #[trigger] intable_requested(rules, program, g, owner, regs, arg)) by {
    }
}

proof fn lemma_from_intables_requested<R: CallRules>(
    rules: R,
    program: MirProgramModel,
    g: GraphModel,
    owner: Seq<char>,
    regs: Seq<(u32, TyModel)>,
    elems: Seq<Reg>,
    n: nat,
)
    ensures
        step_grows(g, intables_requested(rules, program, g, owner, regs, elems, n)),
    decreases n,
{
    lemma_intable_requested_grows::<R>();
    lemma_growth();
    if n > 0 {
        lemma_from_intables_requested(rules, program, g, owner, regs, elems, (n - 1) as nat);
    }
}

proof fn lemma_intables_requested_grows<R: CallRules>()
    ensures
        forall|
            rules: R,
            program: MirProgramModel,
            g: GraphModel,
            owner: Seq<char>,
            regs: Seq<(u32, TyModel)>,
            elems: Seq<Reg>,
            n: nat,
        | step_grows(g, #[trigger] intables_requested(rules, program, g, owner, regs, elems, n)),
{
    assert forall|
        rules: R,
        program: MirProgramModel,
        g: GraphModel,
        owner: Seq<char>,
        regs: Seq<(u32, TyModel)>,
        elems: Seq<Reg>,
        n: nat,
    | step_grows(g, #[trigger] intables_requested(rules, program, g, owner, regs, elems, n)) by {
        lemma_from_intables_requested(rules, program, g, owner, regs, elems, n);
    }
}

proof fn lemma_iterator_step_grows<R: CallRules>()
    ensures
        forall|
            rules: R,
            program: MirProgramModel,
            g: GraphModel,
            owner: Seq<char>,
            receiver: TyModel,
            method: Seq<char>,
            selected: Seq<char>,
            result: Option<TyModel>,
        | step_grows(g, #[trigger] iterator_step(rules, program, g, owner, receiver, method, selected, result)),
{
    reveal(iterator_step);
    lemma_receiver_requested_grows();
    lemma_growth();
    assert forall|
        rules: R,
        program: MirProgramModel,
        g: GraphModel,
        owner: Seq<char>,
        receiver: TyModel,
        method: Seq<char>,
        selected: Seq<char>,
        result: Option<TyModel>,
    | step_grows(g, #[trigger] iterator_step(rules, program, g, owner, receiver, method, selected, result)) by {
    }
}

proof fn lemma_from_prepared<R: CallRules>(
    rules: R,
    program: MirProgramModel,
    g: GraphModel,
    owner: Seq<char>,
    start: TyModel,
    prepare: Seq<Seq<char>>,
    n: nat,
)
    ensures
        step_grows(g, prepared(rules, program, g, owner, start, prepare, n)),
    decreases n,
{
    lemma_iterator_step_grows::<R>();
    lemma_growth();
    if n > 0 {
        lemma_from_prepared(rules, program, g, owner, start, prepare, (n - 1) as nat);
    }
}

proof fn lemma_prepared_grows<R: CallRules>()
    ensures
        forall|
            rules: R,
            program: MirProgramModel,
            g: GraphModel,
            owner: Seq<char>,
            start: TyModel,
            prepare: Seq<Seq<char>>,
            n: nat,
        | step_grows(g, #[trigger] prepared(rules, program, g, owner, start, prepare, n)),
{
    assert forall|
        rules: R,
        program: MirProgramModel,
        g: GraphModel,
        owner: Seq<char>,
        start: TyModel,
        prepare: Seq<Seq<char>>,
        n: nat,
    | step_grows(g, #[trigger] prepared(rules, program, g, owner, start, prepare, n)) by {
        lemma_from_prepared(rules, program, g, owner, start, prepare, n);
    }
}

proof fn lemma_from_normalized<R: CallRules>(
    rules: R,
    program: MirProgramModel,
    g: GraphModel,
    owner: Seq<char>,
    current: TyModel,
    selected: Seq<char>,
    done: Seq<Seq<char>>,
    budget: nat,
)
    ensures
        step_grows(g, normalized(rules, program, g, owner, current, selected, done, budget)),
    decreases budget,
{
    lemma_iterator_step_grows::<R>();
    lemma_growth();
    if !advances(rules, program, current) && budget > 0 {
        if let Ok(s) = iterator_step(rules, program, g, owner, current, "__iter__"@, selected, None) {
            lemma_from_normalized(
                rules,
                program,
                s.0,
                owner,
                s.1.1,
                selected,
                done.push(s.1.0),
                (budget - 1) as nat,
            );
        }
    }
}

proof fn lemma_normalized_grows<R: CallRules>()
    ensures
        forall|
            rules: R,
            program: MirProgramModel,
            g: GraphModel,
            owner: Seq<char>,
            current: TyModel,
            selected: Seq<char>,
            done: Seq<Seq<char>>,
            budget: nat,
        | step_grows(g, #[trigger] normalized(rules, program, g, owner, current, selected, done, budget)),
{
    assert forall|
        rules: R,
        program: MirProgramModel,
        g: GraphModel,
        owner: Seq<char>,
        current: TyModel,
        selected: Seq<char>,
        done: Seq<Seq<char>>,
        budget: nat,
    | step_grows(g, #[trigger] normalized(rules, program, g, owner, current, selected, done, budget)) by {
        lemma_from_normalized(rules, program, g, owner, current, selected, done, budget);
    }
}

proof fn lemma_loop_prepared_grows<R: CallRules>()
    ensures
        forall|
            rules: R,
            program: MirProgramModel,
            g: GraphModel,
            owner: Seq<char>,
            start: TyModel,
            prepare: Seq<Seq<char>>,
        | step_grows(g, #[trigger] loop_prepared(rules, program, g, owner, start, prepare)),
{
    reveal(loop_prepared);
    lemma_normalized_grows::<R>();
    lemma_prepared_grows::<R>();
    lemma_growth();
    assert forall|
        rules: R,
        program: MirProgramModel,
        g: GraphModel,
        owner: Seq<char>,
        start: TyModel,
        prepare: Seq<Seq<char>>,
    | step_grows(g, #[trigger] loop_prepared(rules, program, g, owner, start, prepare)) by {
    }
}

proof fn lemma_subscript_retargeted_grows<R: CallRules>()
    ensures
        forall|
            rules: R,
            program: MirProgramModel,
            g: GraphModel,
            owner: Seq<char>,
            function: MirFunctionModel,
            constants: Map<u32, CtValueModel>,
            receiver: Reg,
            method: Seq<char>,
            call: MirSubscriptCallModel,
        | step_grows(g, #[trigger] subscript_retargeted(rules, program, g, owner, function, constants, receiver, method, call)),
{
    reveal(subscript_retargeted);
    lemma_enqueued_grows();
    lemma_growth();
    assert forall|
        rules: R,
        program: MirProgramModel,
        g: GraphModel,
        owner: Seq<char>,
        function: MirFunctionModel,
        constants: Map<u32, CtValueModel>,
        receiver: Reg,
        method: Seq<char>,
        call: MirSubscriptCallModel,
    | step_grows(g, #[trigger] subscript_retargeted(rules, program, g, owner, function, constants, receiver, method, call)) by {
    }
}

proof fn lemma_call_requested_grows<R: CallRules>()
    ensures
        forall|
            env: EnvModel<R>,
            g: GraphModel,
            f: MirFunctionModel,
            target: Seq<char>,
            receiver: Option<Reg>,
            dest: Reg,
            args: Seq<Reg>,
            kwargs: Seq<(Seq<char>, Reg)>,
            param_args: Seq<MirParamArgModel>,
        | step_grows(g, #[trigger] call_requested(env, g, f, target, receiver, dest, args, kwargs, param_args)),
{
    reveal(call_requested);
    lemma_enqueued_grows();
    lemma_growth();
    assert forall|
        env: EnvModel<R>,
        g: GraphModel,
        f: MirFunctionModel,
        target: Seq<char>,
        receiver: Option<Reg>,
        dest: Reg,
        args: Seq<Reg>,
        kwargs: Seq<(Seq<char>, Reg)>,
        param_args: Seq<MirParamArgModel>,
    | step_grows(g, #[trigger] call_requested(env, g, f, target, receiver, dest, args, kwargs, param_args)) by {
    }
}

proof fn lemma_constructor_requested_grows<R: CallRules>()
    ensures
        forall|
            env: EnvModel<R>,
            g: GraphModel,
            f: MirFunctionModel,
            dest: Reg,
            init: Seq<char>,
            args: Seq<Reg>,
            kwargs: Seq<(Seq<char>, Reg)>,
            param_args: Seq<MirParamArgModel>,
        | rewrite_grows(g, #[trigger] constructor_requested(env, g, f, dest, init, args, kwargs, param_args)),
{
    reveal(constructor_requested);
    lemma_enqueued_grows();
    lemma_growth();
    assert forall|
        env: EnvModel<R>,
        g: GraphModel,
        f: MirFunctionModel,
        dest: Reg,
        init: Seq<char>,
        args: Seq<Reg>,
        kwargs: Seq<(Seq<char>, Reg)>,
        param_args: Seq<MirParamArgModel>,
    | rewrite_grows(g, #[trigger] constructor_requested(env, g, f, dest, init, args, kwargs, param_args)) by {
    }
}

proof fn lemma_constructor_call_grows<R: CallRules>()
    ensures
        forall|
            env: EnvModel<R>,
            g: GraphModel,
            f: MirFunctionModel,
            dest: Reg,
            func: Seq<char>,
            args: Seq<Reg>,
            kwargs: Seq<(Seq<char>, Reg)>,
            param_args: Seq<MirParamArgModel>,
        | rewrite_grows(g, #[trigger] constructor_call(env, g, f, dest, func, args, kwargs, param_args)),
{
    reveal(constructor_call);
    lemma_constructor_requested_grows::<R>();
    lemma_growth();
    assert forall|
        env: EnvModel<R>,
        g: GraphModel,
        f: MirFunctionModel,
        dest: Reg,
        func: Seq<char>,
        args: Seq<Reg>,
        kwargs: Seq<(Seq<char>, Reg)>,
        param_args: Seq<MirParamArgModel>,
    | rewrite_grows(g, #[trigger] constructor_call(env, g, f, dest, func, args, kwargs, param_args)) by {
    }
}

proof fn lemma_builtin_call_grows<R: CallRules>()
    ensures
        forall|
            env: EnvModel<R>,
            g: GraphModel,
            f: MirFunctionModel,
            dest: Reg,
            func: Seq<char>,
            args: Seq<Reg>,
            kwargs: Seq<(Seq<char>, Reg)>,
            param_args: Seq<MirParamArgModel>,
        | rewrite_grows(g, #[trigger] builtin_call(env, g, f, dest, func, args, kwargs, param_args)),
{
    reveal(builtin_call);
    lemma_constructor_call_grows::<R>();
    lemma_displays_requested_grows::<R>();
    lemma_growth();
    assert forall|
        env: EnvModel<R>,
        g: GraphModel,
        f: MirFunctionModel,
        dest: Reg,
        func: Seq<char>,
        args: Seq<Reg>,
        kwargs: Seq<(Seq<char>, Reg)>,
        param_args: Seq<MirParamArgModel>,
    | rewrite_grows(g, #[trigger] builtin_call(env, g, f, dest, func, args, kwargs, param_args)) by {
    }
}

proof fn lemma_direct_call_grows<R: CallRules>()
    ensures
        forall|
            env: EnvModel<R>,
            g: GraphModel,
            f: MirFunctionModel,
            dest: Reg,
            func: Seq<char>,
            args: Seq<Reg>,
            kwargs: Seq<(Seq<char>, Reg)>,
            param_args: Seq<MirParamArgModel>,
        | rewrite_grows(g, #[trigger] direct_call(env, g, f, dest, func, args, kwargs, param_args)),
{
    reveal(direct_call);
    lemma_call_requested_grows::<R>();
    lemma_growth();
    assert forall|
        env: EnvModel<R>,
        g: GraphModel,
        f: MirFunctionModel,
        dest: Reg,
        func: Seq<char>,
        args: Seq<Reg>,
        kwargs: Seq<(Seq<char>, Reg)>,
        param_args: Seq<MirParamArgModel>,
    | rewrite_grows(g, #[trigger] direct_call(env, g, f, dest, func, args, kwargs, param_args)) by {
    }
}

proof fn lemma_call_rewritten_grows<R: CallRules>()
    ensures
        forall|
            env: EnvModel<R>,
            g: GraphModel,
            f: MirFunctionModel,
            x: MirInstrModel,
        | rewrite_grows(g, #[trigger] call_rewritten(env, g, f, x)),
{
    reveal(call_rewritten);
    lemma_builtin_call_grows::<R>();
    lemma_direct_call_grows::<R>();
    lemma_growth();
    assert forall|
        env: EnvModel<R>,
        g: GraphModel,
        f: MirFunctionModel,
        x: MirInstrModel,
    | rewrite_grows(g, #[trigger] call_rewritten(env, g, f, x)) by {
    }
}

proof fn lemma_leaf_requested_grows<R: CallRules>()
    ensures
        forall|
            env: EnvModel<R>,
            g: GraphModel,
            f: MirFunctionModel,
            method: Seq<char>,
            args: Seq<Reg>,
            kwargs: nat,
            receiver: TyModel,
        | step_grows(g, #[trigger] leaf_requested(env, g, f, method, args, kwargs, receiver)),
{
    reveal(leaf_requested);
    lemma_hash_leaf_requested_grows::<R>();
    lemma_growth();
    assert forall|
        env: EnvModel<R>,
        g: GraphModel,
        f: MirFunctionModel,
        method: Seq<char>,
        args: Seq<Reg>,
        kwargs: nat,
        receiver: TyModel,
    | step_grows(g, #[trigger] leaf_requested(env, g, f, method, args, kwargs, receiver)) by {
    }
}

proof fn lemma_struct_method_grows<R: CallRules>()
    ensures
        forall|
            env: EnvModel<R>,
            g: GraphModel,
            f: MirFunctionModel,
            name: Seq<char>,
            receiver: TyModel,
            dest: Reg,
            recv: Reg,
            method: Seq<char>,
            resolved: Option<Seq<char>>,
            args: Seq<Reg>,
            kwargs: Seq<(Seq<char>, Reg)>,
            param_args: Seq<MirParamArgModel>,
        | step_grows(g, #[trigger] struct_method(env, g, f, name, receiver, dest, recv, method, resolved, args, kwargs, param_args)),
{
    reveal(struct_method);
    lemma_call_requested_grows::<R>();
    lemma_receiver_requested_grows();
    lemma_growth();
    assert forall|
        env: EnvModel<R>,
        g: GraphModel,
        f: MirFunctionModel,
        name: Seq<char>,
        receiver: TyModel,
        dest: Reg,
        recv: Reg,
        method: Seq<char>,
        resolved: Option<Seq<char>>,
        args: Seq<Reg>,
        kwargs: Seq<(Seq<char>, Reg)>,
        param_args: Seq<MirParamArgModel>,
    | step_grows(g, #[trigger] struct_method(env, g, f, name, receiver, dest, recv, method, resolved, args, kwargs, param_args)) by {
    }
}

proof fn lemma_method_resolved_grows<R: CallRules>()
    ensures
        forall|
            env: EnvModel<R>,
            g: GraphModel,
            f: MirFunctionModel,
            dest: Reg,
            recv: Reg,
            method: Seq<char>,
            resolved: Option<Seq<char>>,
            args: Seq<Reg>,
            kwargs: Seq<(Seq<char>, Reg)>,
            param_args: Seq<MirParamArgModel>,
        | step_grows(g, #[trigger] method_resolved(env, g, f, dest, recv, method, resolved, args, kwargs, param_args)),
{
    reveal(method_resolved);
    lemma_displays_requested_grows::<R>();
    lemma_leaf_requested_grows::<R>();
    lemma_struct_method_grows::<R>();
    lemma_growth();
    assert forall|
        env: EnvModel<R>,
        g: GraphModel,
        f: MirFunctionModel,
        dest: Reg,
        recv: Reg,
        method: Seq<char>,
        resolved: Option<Seq<char>>,
        args: Seq<Reg>,
        kwargs: Seq<(Seq<char>, Reg)>,
        param_args: Seq<MirParamArgModel>,
    | step_grows(g, #[trigger] method_resolved(env, g, f, dest, recv, method, resolved, args, kwargs, param_args)) by {
    }
}

proof fn lemma_method_rewritten_grows<R: CallRules>()
    ensures
        forall|
            env: EnvModel<R>,
            g: GraphModel,
            f: MirFunctionModel,
            x: MirInstrModel,
        | step_grows(g, #[trigger] method_rewritten(env, g, f, x)),
{
    reveal(method_rewritten);
    lemma_method_resolved_grows::<R>();
    lemma_growth();
    assert forall|
        env: EnvModel<R>,
        g: GraphModel,
        f: MirFunctionModel,
        x: MirInstrModel,
    | step_grows(g, #[trigger] method_rewritten(env, g, f, x)) by {
    }
}

proof fn lemma_devirtualized_grows<R: CallRules>()
    ensures
        forall|
            env: EnvModel<R>,
            g: GraphModel,
            f: MirFunctionModel,
            dest: Reg,
            callee: Reg,
            resolved: Option<Seq<char>>,
            args: Seq<Reg>,
            kwargs: Seq<(Seq<char>, Reg)>,
            param_args: Seq<MirParamArgModel>,
        | step_grows(g, #[trigger] devirtualized(env, g, f, dest, callee, resolved, args, kwargs, param_args)),
{
    reveal(devirtualized);
    lemma_call_requested_grows::<R>();
    lemma_growth();
    assert forall|
        env: EnvModel<R>,
        g: GraphModel,
        f: MirFunctionModel,
        dest: Reg,
        callee: Reg,
        resolved: Option<Seq<char>>,
        args: Seq<Reg>,
        kwargs: Seq<(Seq<char>, Reg)>,
        param_args: Seq<MirParamArgModel>,
    | step_grows(g, #[trigger] devirtualized(env, g, f, dest, callee, resolved, args, kwargs, param_args)) by {
    }
}

proof fn lemma_indirect_rewritten_grows<R: CallRules>()
    ensures
        forall|
            env: EnvModel<R>,
            g: GraphModel,
            f: MirFunctionModel,
            x: MirInstrModel,
        | step_grows(g, #[trigger] indirect_rewritten(env, g, f, x)),
{
    reveal(indirect_rewritten);
    lemma_devirtualized_grows::<R>();
    lemma_growth();
    assert forall|
        env: EnvModel<R>,
        g: GraphModel,
        f: MirFunctionModel,
        x: MirInstrModel,
    | step_grows(g, #[trigger] indirect_rewritten(env, g, f, x)) by {
    }
}

proof fn lemma_body_requested_grows()
    ensures
        forall|
            program: MirProgramModel,
            g: GraphModel,
            target: Seq<char>,
        | step_grows(g, #[trigger] body_requested(program, g, target)),
{
    reveal(body_requested);
    lemma_enqueued_grows();
    lemma_growth();
    assert forall|
        program: MirProgramModel,
        g: GraphModel,
        target: Seq<char>,
    | step_grows(g, #[trigger] body_requested(program, g, target)) by {
    }
}

proof fn lemma_callable_rewritten_grows()
    ensures
        forall|
            program: MirProgramModel,
            g: GraphModel,
            x: MirInstrModel,
        | step_grows(g, #[trigger] callable_rewritten(program, g, x)),
{
    reveal(callable_rewritten);
    lemma_body_requested_grows();
    lemma_growth();
    assert forall|
        program: MirProgramModel,
        g: GraphModel,
        x: MirInstrModel,
    | step_grows(g, #[trigger] callable_rewritten(program, g, x)) by {
    }
}

proof fn lemma_subscript_rewritten_grows<R: CallRules>()
    ensures
        forall|
            env: EnvModel<R>,
            g: GraphModel,
            f: MirFunctionModel,
            x: MirInstrModel,
        | step_grows(g, #[trigger] subscript_rewritten(env, g, f, x)),
{
    reveal(subscript_rewritten);
    lemma_subscript_retargeted_grows::<R>();
    lemma_growth();
    assert forall|
        env: EnvModel<R>,
        g: GraphModel,
        f: MirFunctionModel,
        x: MirInstrModel,
    | step_grows(g, #[trigger] subscript_rewritten(env, g, f, x)) by {
    }
}

proof fn lemma_iteration_retargeted_grows<R: CallRules>()
    ensures
        forall|
            env: EnvModel<R>,
            g: GraphModel,
            f: MirFunctionModel,
            iter: u32,
            method: Seq<char>,
            selected: Seq<char>,
            result: Option<TyModel>,
        | step_grows(g, #[trigger] iteration_retargeted(env, g, f, iter, method, selected, result)),
{
    lemma_iterator_step_grows::<R>();
    lemma_growth();
    assert forall|
        env: EnvModel<R>,
        g: GraphModel,
        f: MirFunctionModel,
        iter: u32,
        method: Seq<char>,
        selected: Seq<char>,
        result: Option<TyModel>,
    | step_grows(g, #[trigger] iteration_retargeted(env, g, f, iter, method, selected, result)) by {
    }
}

proof fn lemma_iteration_rewritten_grows<R: CallRules>()
    ensures
        forall|
            env: EnvModel<R>,
            g: GraphModel,
            f: MirFunctionModel,
            x: MirInstrModel,
        | step_grows(g, #[trigger] iteration_rewritten(env, g, f, x)),
{
    reveal(iteration_rewritten);
    lemma_iteration_retargeted_grows::<R>();
    lemma_growth();
    assert forall|
        env: EnvModel<R>,
        g: GraphModel,
        f: MirFunctionModel,
        x: MirInstrModel,
    | step_grows(g, #[trigger] iteration_rewritten(env, g, f, x)) by {
    }
}

proof fn lemma_vector_requested_grows<R: CallRules>()
    ensures
        forall|
            env: EnvModel<R>,
            g: GraphModel,
            f: MirFunctionModel,
            elems: Seq<Reg>,
            x: MirInstrModel,
        | step_grows(g, #[trigger] vector_requested(env, g, f, elems, x)),
{
    lemma_intables_requested_grows::<R>();
    lemma_growth();
    assert forall|
        env: EnvModel<R>,
        g: GraphModel,
        f: MirFunctionModel,
        elems: Seq<Reg>,
        x: MirInstrModel,
    | step_grows(g, #[trigger] vector_requested(env, g, f, elems, x)) by {
    }
}

proof fn lemma_dispatched_rewritten_grows<R: CallRules>()
    ensures
        forall|
            env: EnvModel<R>,
            g: GraphModel,
            f: MirFunctionModel,
            x: MirInstrModel,
        | rewrite_grows(g, #[trigger] dispatched_rewritten(env, g, f, x)),
{
    reveal(dispatched_rewritten);
    lemma_call_rewritten_grows::<R>();
    lemma_callable_rewritten_grows();
    lemma_indirect_rewritten_grows::<R>();
    lemma_iteration_rewritten_grows::<R>();
    lemma_method_rewritten_grows::<R>();
    lemma_subscript_rewritten_grows::<R>();
    lemma_vector_requested_grows::<R>();
    lemma_growth();
    assert forall|
        env: EnvModel<R>,
        g: GraphModel,
        f: MirFunctionModel,
        x: MirInstrModel,
    | rewrite_grows(g, #[trigger] dispatched_rewritten(env, g, f, x)) by {
    }
}

proof fn lemma_rewritten_leaf_grows<R: CallRules>()
    ensures
        forall|
            env: EnvModel<R>,
            g: GraphModel,
            f: MirFunctionModel,
            x: MirInstrModel,
        | rewrite_grows(g, #[trigger] rewritten_leaf(env, g, f, x)),
{
    reveal(rewritten_leaf);
    lemma_dispatched_rewritten_grows::<R>();
    lemma_growth();
    assert forall|
        env: EnvModel<R>,
        g: GraphModel,
        f: MirFunctionModel,
        x: MirInstrModel,
    | rewrite_grows(g, #[trigger] rewritten_leaf(env, g, f, x)) by {
    }
}

proof fn lemma_prepared_leaf_grows<R: CallRules>()
    ensures
        forall|
            env: EnvModel<R>,
            g: GraphModel,
            f: MirFunctionModel,
            x: MirInstrModel,
        | rewrite_grows(g, #[trigger] prepared_leaf(env, g, f, x)),
{
    reveal(prepared_leaf);
    lemma_loop_prepared_grows::<R>();
    lemma_growth();
    assert forall|
        env: EnvModel<R>,
        g: GraphModel,
        f: MirFunctionModel,
        x: MirInstrModel,
    | rewrite_grows(g, #[trigger] prepared_leaf(env, g, f, x)) by {
    }
}

proof fn lemma_from_prepared_instr<R: CallRules>(
    env: EnvModel<R>,
    g: GraphModel,
    f: MirFunctionModel,
    x: MirInstrModel,
)
    ensures
        rewrite_grows(g, prepared_instr(env, g, f, x)),
    decreases x, 0int,
{
    lemma_prepared_leaf_grows::<R>();
    lemma_growth();
    if let MirInstrModel::Try { body, handler, orelse, finalbody } = x {
        lemma_from_prepared_blocks(env, g, f, body);
        if let Ok(a) = prepared_blocks(env, g, f, body) {
            lemma_from_prepared_handler(env, a.0, a.1, handler);
            if let Ok(b) = prepared_handler(env, a.0, a.1, handler) {
                lemma_from_prepared_region(env, b.0, b.1, orelse);
                if let Ok(c) = prepared_region(env, b.0, b.1, orelse) {
                    lemma_from_prepared_region(env, c.0, c.1, finalbody);
                }
            }
        }
    }
}

proof fn lemma_from_prepared_handler<R: CallRules>(
    env: EnvModel<R>,
    g: GraphModel,
    f: MirFunctionModel,
    handler: Option<(Option<u32>, Seq<MirBlockModel>)>,
)
    ensures
        rewrite_grows(g, prepared_handler(env, g, f, handler)),
    decreases handler, 0int,
{
    lemma_growth();
    if let Some(h) = handler {
        lemma_from_prepared_blocks(env, g, f, h.1);
    }
}

proof fn lemma_from_prepared_region<R: CallRules>(
    env: EnvModel<R>,
    g: GraphModel,
    f: MirFunctionModel,
    region: Option<Seq<MirBlockModel>>,
)
    ensures
        rewrite_grows(g, prepared_region(env, g, f, region)),
    decreases region, 0int,
{
    lemma_growth();
    if let Some(blocks) = region {
        lemma_from_prepared_blocks(env, g, f, blocks);
    }
}

proof fn lemma_from_prepared_instrs<R: CallRules>(
    env: EnvModel<R>,
    g: GraphModel,
    f: MirFunctionModel,
    xs: Seq<MirInstrModel>,
)
    ensures
        rewrite_grows(g, prepared_instrs(env, g, f, xs)),
    decreases xs, 0int,
{
    lemma_growth();
    if xs.len() > 0 {
        lemma_from_prepared_instrs(env, g, f, xs.drop_last());
        if let Ok(a) = prepared_instrs(env, g, f, xs.drop_last()) {
            lemma_from_prepared_instr(env, a.0, a.1, xs.last());
        }
    }
}

proof fn lemma_from_prepared_blocks<R: CallRules>(
    env: EnvModel<R>,
    g: GraphModel,
    f: MirFunctionModel,
    xs: Seq<MirBlockModel>,
)
    ensures
        rewrite_grows(g, prepared_blocks(env, g, f, xs)),
    decreases xs, 0int,
{
    lemma_growth();
    if xs.len() > 0 {
        lemma_from_prepared_blocks(env, g, f, xs.drop_last());
        if let Ok(a) = prepared_blocks(env, g, f, xs.drop_last()) {
            lemma_from_prepared_instrs(env, a.0, a.1, xs.last().instrs);
        }
    }
}

proof fn lemma_prepared_blocks_grows<R: CallRules>()
    ensures
        forall|
            env: EnvModel<R>,
            g: GraphModel,
            f: MirFunctionModel,
            xs: Seq<MirBlockModel>,
        | rewrite_grows(g, #[trigger] prepared_blocks(env, g, f, xs)),
{
    assert forall|
        env: EnvModel<R>,
        g: GraphModel,
        f: MirFunctionModel,
        xs: Seq<MirBlockModel>,
    | rewrite_grows(g, #[trigger] prepared_blocks(env, g, f, xs)) by {
        lemma_from_prepared_blocks(env, g, f, xs);
    }
}

proof fn lemma_from_rewritten_instr<R: CallRules>(
    env: EnvModel<R>,
    g: GraphModel,
    f: MirFunctionModel,
    x: MirInstrModel,
)
    ensures
        rewrite_grows(g, rewritten_instr(env, g, f, x)),
    decreases x, 0int,
{
    lemma_rewritten_leaf_grows::<R>();
    lemma_growth();
    if let MirInstrModel::Try { body, handler, orelse, finalbody } = x {
        lemma_from_rewritten_blocks(env, g, f, body);
        if let Ok(a) = rewritten_blocks(env, g, f, body) {
            lemma_from_rewritten_handler(env, a.0, a.1, handler);
            if let Ok(b) = rewritten_handler(env, a.0, a.1, handler) {
                lemma_from_rewritten_region(env, b.0, b.1, orelse);
                if let Ok(c) = rewritten_region(env, b.0, b.1, orelse) {
                    lemma_from_rewritten_region(env, c.0, c.1, finalbody);
                }
            }
        }
    }
}

proof fn lemma_from_rewritten_handler<R: CallRules>(
    env: EnvModel<R>,
    g: GraphModel,
    f: MirFunctionModel,
    handler: Option<(Option<u32>, Seq<MirBlockModel>)>,
)
    ensures
        rewrite_grows(g, rewritten_handler(env, g, f, handler)),
    decreases handler, 0int,
{
    lemma_growth();
    if let Some(h) = handler {
        lemma_from_rewritten_blocks(env, g, f, h.1);
    }
}

proof fn lemma_from_rewritten_region<R: CallRules>(
    env: EnvModel<R>,
    g: GraphModel,
    f: MirFunctionModel,
    region: Option<Seq<MirBlockModel>>,
)
    ensures
        rewrite_grows(g, rewritten_region(env, g, f, region)),
    decreases region, 0int,
{
    lemma_growth();
    if let Some(blocks) = region {
        lemma_from_rewritten_blocks(env, g, f, blocks);
    }
}

proof fn lemma_from_rewritten_instrs<R: CallRules>(
    env: EnvModel<R>,
    g: GraphModel,
    f: MirFunctionModel,
    xs: Seq<MirInstrModel>,
)
    ensures
        rewrite_grows(g, rewritten_instrs(env, g, f, xs)),
    decreases xs, 0int,
{
    lemma_growth();
    if xs.len() > 0 {
        lemma_from_rewritten_instrs(env, g, f, xs.drop_last());
        if let Ok(a) = rewritten_instrs(env, g, f, xs.drop_last()) {
            lemma_from_rewritten_instr(env, a.0, a.1, xs.last());
        }
    }
}

proof fn lemma_from_rewritten_blocks<R: CallRules>(
    env: EnvModel<R>,
    g: GraphModel,
    f: MirFunctionModel,
    xs: Seq<MirBlockModel>,
)
    ensures
        rewrite_grows(g, rewritten_blocks(env, g, f, xs)),
    decreases xs, 0int,
{
    lemma_growth();
    if xs.len() > 0 {
        lemma_from_rewritten_blocks(env, g, f, xs.drop_last());
        if let Ok(a) = rewritten_blocks(env, g, f, xs.drop_last()) {
            lemma_from_rewritten_instrs(env, a.0, a.1, xs.last().instrs);
        }
    }
}

proof fn lemma_rewritten_blocks_grows<R: CallRules>()
    ensures
        forall|
            env: EnvModel<R>,
            g: GraphModel,
            f: MirFunctionModel,
            xs: Seq<MirBlockModel>,
        | rewrite_grows(g, #[trigger] rewritten_blocks(env, g, f, xs)),
{
    assert forall|
        env: EnvModel<R>,
        g: GraphModel,
        f: MirFunctionModel,
        xs: Seq<MirBlockModel>,
    | rewrite_grows(g, #[trigger] rewritten_blocks(env, g, f, xs)) by {
        lemma_from_rewritten_blocks(env, g, f, xs);
    }
}

proof fn lemma_lifecycle_candidate_grows()
    ensures
        forall|
            program: MirProgramModel,
            g: GraphModel,
            template: MirStructDeclarationModel,
            b: BindingsModel,
            candidate: Seq<char>,
        | step_grows(g, #[trigger] lifecycle_candidate(program, g, template, b, candidate)),
{
    reveal(lifecycle_candidate);
    lemma_enqueued_grows();
    lemma_growth();
    assert forall|
        program: MirProgramModel,
        g: GraphModel,
        template: MirStructDeclarationModel,
        b: BindingsModel,
        candidate: Seq<char>,
    | step_grows(g, #[trigger] lifecycle_candidate(program, g, template, b, candidate)) by {
    }
}

proof fn lemma_from_lifecycle_candidates(
    program: MirProgramModel,
    g: GraphModel,
    template: MirStructDeclarationModel,
    b: BindingsModel,
    base: Seq<char>,
    n: nat,
)
    ensures
        step_grows(g, lifecycle_candidates(program, g, template, b, base, n)),
    decreases n,
{
    lemma_lifecycle_candidate_grows();
    lemma_growth();
    if n > 0 {
        lemma_from_lifecycle_candidates(program, g, template, b, base, (n - 1) as nat);
    }
}

proof fn lemma_lifecycle_candidates_grows()
    ensures
        forall|
            program: MirProgramModel,
            g: GraphModel,
            template: MirStructDeclarationModel,
            b: BindingsModel,
            base: Seq<char>,
            n: nat,
        | step_grows(g, #[trigger] lifecycle_candidates(program, g, template, b, base, n)),
{
    assert forall|
        program: MirProgramModel,
        g: GraphModel,
        template: MirStructDeclarationModel,
        b: BindingsModel,
        base: Seq<char>,
        n: nat,
    | step_grows(g, #[trigger] lifecycle_candidates(program, g, template, b, base, n)) by {
        lemma_from_lifecycle_candidates(program, g, template, b, base, n);
    }
}

proof fn lemma_from_lifecycle_requested(
    program: MirProgramModel,
    g: GraphModel,
    template: MirStructDeclarationModel,
    b: BindingsModel,
    template_name: Seq<char>,
    k: nat,
)
    ensures
        step_grows(g, lifecycle_requested(program, g, template, b, template_name, k)),
    decreases k,
{
    lemma_lifecycle_candidates_grows();
    lemma_growth();
    if k > 0 {
        lemma_from_lifecycle_requested(program, g, template, b, template_name, (k - 1) as nat);
    }
}

proof fn lemma_lifecycle_requested_grows()
    ensures
        forall|
            program: MirProgramModel,
            g: GraphModel,
            template: MirStructDeclarationModel,
            b: BindingsModel,
            template_name: Seq<char>,
            k: nat,
        | step_grows(g, #[trigger] lifecycle_requested(program, g, template, b, template_name, k)),
{
    assert forall|
        program: MirProgramModel,
        g: GraphModel,
        template: MirStructDeclarationModel,
        b: BindingsModel,
        template_name: Seq<char>,
        k: nat,
    | step_grows(g, #[trigger] lifecycle_requested(program, g, template, b, template_name, k)) by {
        lemma_from_lifecycle_requested(program, g, template, b, template_name, k);
    }
}

proof fn lemma_instance_discovered_grows()
    ensures
        forall|
            program: MirProgramModel,
            g: GraphModel,
            owner: Seq<char>,
            template: MirStructDeclarationModel,
            name: Seq<char>,
            arguments: Seq<TyArgModel>,
        | step_grows(g, #[trigger] instance_discovered(program, g, owner, template, name, arguments)),
{
    reveal(instance_discovered);
    lemma_lifecycle_requested_grows();
    lemma_growth();
    assert forall|
        program: MirProgramModel,
        g: GraphModel,
        owner: Seq<char>,
        template: MirStructDeclarationModel,
        name: Seq<char>,
        arguments: Seq<TyArgModel>,
    | step_grows(g, #[trigger] instance_discovered(program, g, owner, template, name, arguments)) by {
    }
}

proof fn lemma_type_discovered_grows()
    ensures
        forall|
            program: MirProgramModel,
            g: GraphModel,
            owner: Seq<char>,
            ty: TyModel,
        | step_grows(g, #[trigger] type_discovered(program, g, owner, ty)),
{
    reveal(type_discovered);
    lemma_instance_discovered_grows();
    lemma_growth();
    assert forall|
        program: MirProgramModel,
        g: GraphModel,
        owner: Seq<char>,
        ty: TyModel,
    | step_grows(g, #[trigger] type_discovered(program, g, owner, ty)) by {
    }
}

proof fn lemma_from_types_discovered(
    program: MirProgramModel,
    g: GraphModel,
    owner: Seq<char>,
    types: Seq<TyModel>,
    budget: nat,
)
    ensures
        step_grows(g, types_discovered(program, g, owner, types, budget)),
    decreases budget,
{
    lemma_type_discovered_grows();
    lemma_growth();
    if types.len() > 0 && budget > 0 {
        if let Ok(s) = type_discovered(program, g, owner, types.last()) {
            lemma_from_types_discovered(
                program,
                s.0,
                owner,
                types.drop_last() + nested_types(types.last()) + s.1,
                (budget - 1) as nat,
            );
        }
    }
}

proof fn lemma_types_discovered_grows()
    ensures
        forall|
            program: MirProgramModel,
            g: GraphModel,
            owner: Seq<char>,
            types: Seq<TyModel>,
            budget: nat,
        | step_grows(g, #[trigger] types_discovered(program, g, owner, types, budget)),
{
    assert forall|
        program: MirProgramModel,
        g: GraphModel,
        owner: Seq<char>,
        types: Seq<TyModel>,
        budget: nat,
    | step_grows(g, #[trigger] types_discovered(program, g, owner, types, budget)) by {
        lemma_from_types_discovered(program, g, owner, types, budget);
    }
}

proof fn lemma_structs_discovered_grows()
    ensures
        forall|
            program: MirProgramModel,
            g: GraphModel,
            owner: Seq<char>,
            f: MirFunctionModel,
        | step_grows(g, #[trigger] structs_discovered(program, g, owner, f)),
{
    reveal(structs_discovered);
    lemma_types_discovered_grows();
    lemma_growth();
    assert forall|
        program: MirProgramModel,
        g: GraphModel,
        owner: Seq<char>,
        f: MirFunctionModel,
    | step_grows(g, #[trigger] structs_discovered(program, g, owner, f)) by {
    }
}

/// Asking for an instance lets the graph grow by it, and its symbol is known then.
proof fn lemma_enqueued_known(
    program: MirProgramModel,
    g: GraphModel,
    template: Seq<char>,
    b: BindingsModel,
    arguments: Seq<InstanceArgModel>,
)
    ensures
        enqueued(program, g, template, b, arguments) matches Ok(s) ==> symbol_taken(s.0.instances, s.1),
{
    reveal(enqueued);
    let key = InstanceKeyModel { template, arguments, owner: owner_instance(b) };
    if let Some(name) = known_symbol(g.instances, key) {
        lemma_known_taken(g.instances, key);
    } else if let Ok(s) = enqueued(program, g, template, b, arguments) {
        assert(s.0.instances[g.instances.len() as int].1 == s.1);
    }
}

proof fn lemma_known_taken(instances: Seq<(InstanceKeyModel, Seq<char>)>, key: InstanceKeyModel)
    requires
        known_symbol(instances, key) is Some,
    ensures
        exists|i: int| 0 <= i < instances.len() && #[trigger] instances[i] == (
            key,
            known_symbol(instances, key)->Some_0,
        ),
        symbol_taken(instances, known_symbol(instances, key)->Some_0),
    decreases instances.len(),
{
    if instances[0].0 == key {
        assert(instances[0] == (key, instances[0].1));
    } else {
        lemma_known_taken(instances.skip(1), key);
        let name = known_symbol(instances, key)->Some_0;
        let i = choose|i: int| 0 <= i < instances.skip(1).len() && #[trigger] instances.skip(1)[i] == (key, name);
        assert(instances[i + 1] == (key, name));
    }
}

/// Among distinct keys, each is known by its own symbol.
proof fn lemma_known_symbol(instances: Seq<(InstanceKeyModel, Seq<char>)>, i: int)
    requires
        keys_distinct(instances),
        0 <= i < instances.len(),
    ensures
        known_symbol(instances, instances[i].0) == Some(instances[i].1),
    decreases i,
{
    if i > 0 {
        assert(instances[0].0 != instances[i].0);
        let rest = instances.skip(1);
        assert forall|a: int, b: int| 0 <= a < b < rest.len() implies (#[trigger] rest[a]).0 != (#[trigger] rest[b]).0 by {
            assert(rest[a] == instances[a + 1] && rest[b] == instances[b + 1]);
        }
        lemma_known_symbol(rest, i - 1);
        assert(rest[i - 1] == instances[i]);
    }
}

proof fn lemma_materialized_grows<R: CallRules>(
    rules: R,
    program: MirProgramModel,
    g: GraphModel,
    key: InstanceKeyModel,
    name: Seq<char>,
    b: BindingsModel,
)
    ensures
        materialized(rules, program, g, key, name, b) matches Ok(s) ==> grown(
            g.queue,
            g.instances,
            s.0.queue,
            s.0.instances,
        ) && declaration_specialized(program, key.template, name, b) is Ok && s.0.declarations == g.declarations
            + declaration_specialized(program, key.template, name, b)->Ok_0,
{
    reveal(materialized);
    reveal(body_specialized);
    reveal(blocks_specialized);
    lemma_prepared_blocks_grows::<R>();
    lemma_rewritten_blocks_grows::<R>();
    lemma_structs_discovered_grows();
    lemma_growth();
}

/// Whether an instance waits to be built.
pub open spec fn waits(queue: Seq<(InstanceKeyModel, BindingsModel)>, key: InstanceKeyModel) -> bool {
    exists|j: int| 0 <= j < queue.len() && (#[trigger] queue[j]).0 == key
}

/// Whether every known instance waits or is built.
pub open spec fn accounted(g: GraphModel, done: Built) -> bool {
    forall|i: int|
        0 <= i < g.instances.len() ==> is_built(
            done,
            (#[trigger] g.instances[i]).1,
        ) || waits(g.queue, g.instances[i].0)
}

/// Whether a list of instances starts with another.
pub open spec fn starts_with_instances(
    m: Seq<(InstanceKeyModel, Seq<char>)>,
    n: Seq<(InstanceKeyModel, Seq<char>)>,
) -> bool {
    n.len() <= m.len() && forall|i: int| 0 <= i < n.len() ==> #[trigger] m[i] == n[i]
}

/// Building accounts for every instance.
proof fn lemma_drained_accounts<R: CallRules>(rules: R, program: MirProgramModel, g: GraphModel, done: Built)
    requires
        accounted(g, done),
        keys_distinct(g.instances),
    ensures
        drained(rules, program, g, done) matches Ok(s) ==> forall|i: int|
            0 <= i < s.0.instances.len() ==> is_built(s.1, (#[trigger] s.0.instances[i]).1),
        drained(rules, program, g, done) matches Ok(s) ==> starts_with_instances(s.0.instances, g.instances),
    decreases INSTANCE_BUDGET - done.len(), g.queue.len(),
{
    if g.queue.len() > 0 {
        let key = g.queue[0].0;
        let rest = GraphModel { queue: g.queue.skip(1), ..g };
        if let Some(name) = known_symbol(g.instances, key) {
            if is_built(done, name) {
                assert forall|i: int| 0 <= i < rest.instances.len() implies is_built(
                    done,
                    (#[trigger] rest.instances[i]).1,
                ) || waits(rest.queue, rest.instances[i].0) by {
                    lemma_still_accounted(g, done, i);
                }
                lemma_drained_accounts(rules, program, rest, done);
            } else if done.len() < INSTANCE_BUDGET {
                lemma_materialized_grows(rules, program, rest, key, name, g.queue[0].1);
                if let Ok(s) = materialized(rules, program, rest, key, name, g.queue[0].1) {
                    let next = done.push((name, s.1));
                    reveal(grown);
                    assert(next.drop_last() =~= done);
                    assert(is_built(next, name));
                    assert forall|i: int| 0 <= i < s.0.instances.len() implies is_built(
                        next,
                        (#[trigger] s.0.instances[i]).1,
                    ) || waits(s.0.queue, s.0.instances[i].0) by {
                        if i < rest.instances.len() {
                            assert(s.0.instances[i] == g.instances[i]);
                            lemma_still_accounted(g, done, i);
                            if g.instances[i].1 != name && !is_built(done, g.instances[i].1) {
                                let j = choose|j: int|
                                    0 <= j < rest.queue.len() && (#[trigger] rest.queue[j]).0 == g.instances[i].0;
                                assert(s.0.queue[j] == rest.queue[j]);
                            }
                        } else {
                            let j = i - rest.instances.len() + rest.queue.len();
                            assert(s.0.queue[j].0 == s.0.instances[i].0);
                        }
                    }
                    lemma_drained_accounts(rules, program, s.0, next);
                    if let Ok(end) = drained(rules, program, s.0, next) {
                        assert forall|i: int| 0 <= i < g.instances.len() implies #[trigger] end.0.instances[i]
                            == g.instances[i] by {
                            assert(s.0.instances[i] == rest.instances[i]);
                        }
                    }
                }
            }
        }
    }
}

/// Without the head of the queue, an instance waits still, is built, or is the head's.
proof fn lemma_still_accounted(g: GraphModel, done: Built, i: int)
    requires
        accounted(g, done),
        keys_distinct(g.instances),
        g.queue.len() > 0,
        0 <= i < g.instances.len(),
    ensures
        is_built(done, g.instances[i].1) || waits(g.queue.skip(1), g.instances[i].0) || known_symbol(
            g.instances,
            g.queue[0].0,
        ) == Some(g.instances[i].1),
{
    if !is_built(done, g.instances[i].1) {
        let j = choose|j: int| 0 <= j < g.queue.len() && (#[trigger] g.queue[j]).0 == g.instances[i].0;
        if j == 0 {
            lemma_known_symbol(g.instances, i);
        } else {
            assert(g.queue.skip(1)[j - 1] == g.queue[j]);
        }
    }
}

/// The entries asked for are known by their symbols, and all that is known waits.
proof fn lemma_entries_wait(program: MirProgramModel, entries: Seq<Seq<char>>, n: nat)
    requires
        n <= entries.len(),
    ensures
        entries_requested(
            program,
            empty_graph(),
            entries,
            n,
        ) matches Ok(s) ==> extends(empty_graph(), s.0) && forall|k: int|
            0 <= k < n ==> s.1.dom().contains(#[trigger] entries[k]) && symbol_taken(
                s.0.instances,
                s.1[entries[k]],
            ),
    decreases n,
{
    lemma_growth();
    if n > 0 {
        lemma_entries_wait(program, entries, (n - 1) as nat);
        if let Ok(s) = entries_requested(program, empty_graph(), entries, (n - 1) as nat) {
            lemma_enqueued_grows();
            reveal(entry_requested);
            lemma_enqueued_known(program, s.0, entries[n - 1], fresh_bindings(program), Seq::empty());
            if let Ok(t) = entry_requested(program, s.0, entries[n - 1]) {
                reveal(grown);
                let symbols = s.1.insert(entries[n - 1], t.1);
                assert forall|k: int| 0 <= k < n implies symbols.dom().contains(#[trigger] entries[k]) && symbol_taken(
                    t.0.instances,
                    symbols[entries[k]],
                ) by {
                    if entries[k] != entries[n - 1] {
                        let i = choose|i: int|
                            0 <= i < s.0.instances.len() && (#[trigger] s.0.instances[i]).1 == s.1[entries[k]];
                        assert(t.0.instances[i] == s.0.instances[i]);
                    }
                }
            }
        }
    }
}

/// Every instance that was asked for while a program was specialized is built.
pub proof fn law_every_instance_is_built<R: CallRules>(
    rules: R,
    program: MirProgramModel,
    entries: Seq<Seq<char>>,
)
    ensures
        entries_requested(program, empty_graph(), entries, entries.len()) matches Ok(s) ==> (drained(
            rules,
            program,
            s.0,
            Seq::empty(),
        ) matches Ok(t) ==> forall|i: int|
            0 <= i < t.0.instances.len() ==> is_built(t.1, (#[trigger] t.0.instances[i]).1)),
{
    lemma_entries_wait(program, entries, entries.len());
    if let Ok(s) = entries_requested(program, empty_graph(), entries, entries.len()) {
        lemma_start_accounted(s.0);
        lemma_drained_accounts(rules, program, s.0, Seq::empty());
    }
}

proof fn lemma_start_accounted(g: GraphModel)
    requires
        extends(empty_graph(), g),
    ensures
        accounted(g, Seq::empty()),
        keys_distinct(g.instances),
{
    reveal(grown);
    assert forall|i: int| 0 <= i < g.instances.len() implies waits(g.queue, (#[trigger] g.instances[i]).0) by {
        assert(g.queue[i].0 == g.instances[i].0);
    }
}

/// Every position is among the sorted ones.
proof fn lemma_sorted_positions_cover(keys: Seq<usize>, n: nat, p: int)
    requires
        n <= keys.len(),
        0 <= p < n,
    ensures
        exists|i: int| 0 <= i < n && #[trigger] sorted_positions(keys, n)[i] == p,
    decreases n,
{
    let m = (n - 1) as nat;
    let before = sorted_positions(keys, m);
    law_sorted_positions(keys, m);
    law_sorted_positions(keys, n);
    let at = place_behind(before, keys, keys[m as int], 0);
    lemma_place_behind(before, keys, keys[m as int], 0);
    let after = sorted_positions(keys, n);
    assert(after == before.insert(at, m as int));
    if p == m {
        assert(after[at] == p);
    } else {
        lemma_sorted_positions_cover(keys, m, p);
        let i = choose|i: int| 0 <= i < m && #[trigger] before[i] == p;
        if i < at {
            assert(after[i] == p);
        } else {
            assert(after[i + 1] == p);
        }
    }
}

proof fn lemma_built_somewhere(functions: Built, name: Seq<char>)
    ensures
        is_built(functions, name) == exists|i: int| 0 <= i < functions.len() && (#[trigger] functions[i]).0 == name,
    decreases functions.len(),
{
    if functions.len() > 0 {
        let shorter = functions.drop_last();
        lemma_built_somewhere(shorter, name);
        if functions.last().0 == name {
            assert(functions[functions.len() - 1].0 == name);
        } else if is_built(functions, name) {
            let i = choose|i: int| 0 <= i < shorter.len() && (#[trigger] shorter[i]).0 == name;
            assert(functions[i] == shorter[i]);
        } else {
            assert forall|i: int| 0 <= i < functions.len() implies (#[trigger] functions[i]).0 != name by {
                if i < shorter.len() {
                    assert(shorter[i] == functions[i]);
                }
            }
        }
    }
}

/// A specialized program has a body for every entry, under the symbol that it names
/// the entry by.
pub proof fn law_entries_are_built<R: CallRules>(
    rules: R,
    program: MirProgramModel,
    entries: Seq<Seq<char>>,
    k: int,
)
    requires
        specialized(rules, program, entries) is Ok,
        0 <= k < entries.len(),
    ensures
        ({
            let p = specialized(rules, program, entries)->Ok_0;
            p.entries.dom().contains(entries[k]) && is_built(p.program.functions, p.entries[entries[k]])
        }),
{
    reveal(specialized);
    lemma_entries_wait(program, entries, entries.len());
    let s = entries_requested(program, empty_graph(), entries, entries.len())->Ok_0;
    lemma_start_accounted(s.0);
    lemma_drained_accounts(rules, program, s.0, Seq::empty());
    let t = drained(rules, program, s.0, Seq::empty())->Ok_0;
    let name = s.1[entries[k]];
    let i = choose|i: int| 0 <= i < s.0.instances.len() && (#[trigger] s.0.instances[i]).1 == name;
    assert(t.0.instances[i] == s.0.instances[i]);
    lemma_built_somewhere(t.1, name);
    let p = choose|p: int| 0 <= p < t.1.len() && (#[trigger] t.1[p]).0 == name;
    let keys = symbol_keys(program, t.0, function_symbols(t.1));
    lemma_sorted_positions_cover(keys, keys.len(), p);
    let q = choose|q: int| 0 <= q < keys.len() && #[trigger] sorted_positions(keys, keys.len())[q] == p;
    let functions = assembled(program, t.0, t.1).functions;
    assert(functions[q] == t.1[p]);
    lemma_built_somewhere(functions, name);
}

/// Whether no declaration has a parameter left.
pub open spec fn no_parameters(declarations: Seq<MirFunctionDeclarationModel>) -> bool {
    forall|i: int| 0 <= i < declarations.len() ==> (#[trigger] declarations[i]).param_decls.len() == 0
}

proof fn lemma_drained_declarations<R: CallRules>(
    rules: R,
    program: MirProgramModel,
    g: GraphModel,
    done: Built,
)
    requires
        no_parameters(g.declarations),
    ensures
        drained(rules, program, g, done) matches Ok(s) ==> no_parameters(s.0.declarations),
    decreases INSTANCE_BUDGET - done.len(), g.queue.len(),
{
    if g.queue.len() > 0 {
        let key = g.queue[0].0;
        let b = g.queue[0].1;
        let rest = GraphModel { queue: g.queue.skip(1), ..g };
        if let Some(name) = known_symbol(g.instances, key) {
            if is_built(done, name) {
                lemma_drained_declarations(rules, program, rest, done);
            } else if done.len() < INSTANCE_BUDGET {
                lemma_materialized_grows(rules, program, rest, key, name, b);
                if let Ok(s) = materialized(rules, program, rest, key, name, b) {
                    reveal(declaration_specialized);
                    let d = declaration_specialized(program, key.template, name, b)->Ok_0;
                    assert(no_parameters(d));
                    assert forall|i: int| 0 <= i < s.0.declarations.len() implies (#[trigger] s.0.declarations[i]).param_decls.len()
                        == 0 by {
                        if i < g.declarations.len() {
                            assert(s.0.declarations[i] == g.declarations[i]);
                        } else {
                            assert(s.0.declarations[i] == d[i - g.declarations.len()]);
                        }
                    }
                    lemma_drained_declarations(rules, program, s.0, done.push((name, s.1)));
                }
            }
        }
    }
}

/// No declaration of a specialized program has a parameter left.
pub proof fn law_declarations_are_concrete<R: CallRules>(
    rules: R,
    program: MirProgramModel,
    entries: Seq<Seq<char>>,
)
    requires
        specialized(rules, program, entries) is Ok,
    ensures
        no_parameters(specialized(rules, program, entries)->Ok_0.program.declarations.functions),
{
    reveal(specialized);
    lemma_entries_wait(program, entries, entries.len());
    let s = entries_requested(program, empty_graph(), entries, entries.len())->Ok_0;
    lemma_drained_declarations(rules, program, s.0, Seq::empty());
    let t = drained(rules, program, s.0, Seq::empty())->Ok_0;
    let given = t.0.declarations;
    let keys = symbol_keys(program, t.0, declaration_symbols(given));
    law_sorted_positions(keys, keys.len());
    let ordered = assembled(program, t.0, t.1).declarations.functions;
    assert forall|i: int| 0 <= i < ordered.len() implies (#[trigger] ordered[i]).param_decls.len() == 0 by {
        assert(ordered[i] == given[sorted_positions(keys, keys.len())[i]]);
    }
}

} // verus!
