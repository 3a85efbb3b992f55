//! Building the concrete graph that is reachable from the entries.

use crate::ct::{CtValue, CtValueModel};
use crate::data::{copy_strings, strings_view};
use crate::mir::{
    MirBlock, MirDeclarations, MirDeclarationsModel, MirFunction, MirFunctionDeclaration,
    MirFunctionDeclarationModel, MirFunctionModel, MirProgram, MirProgramModel, blocks_view,
    copy_blocks, copy_struct_declarations, function_declarations_view, string_functions_view,
};
use crate::native::mono::{MonoError, MonoErrorModel};
use crate::native::mono::bindings::{Bindings, BindingsModel, callables_view};
use crate::native::mono::bodies::{prepare_blocks, prepared_blocks, rewrite_blocks, rewritten_blocks};
use crate::native::mono::discover::{discover_structs, structs_discovered};
use crate::native::mono::facts::{
    TargetModel, constant_values, function_constant_values, id_values_view,
    settled_callable_targets, target_map_view, targets_within,
};
use crate::native::mono::function::{
    carried_types, concreteness, ensure_concrete_function,
    erase_specialized_generic_callable_storage, first_symbolic, repair_storage_result_types,
    repaired, subst_declaration, subst_function, substitute_declaration, substitute_function,
    without_generic_callables,
};
use crate::native::mono::infer::{CallFacts, FactsModel, base_bindings, fail_in, failure_in, fresh_bindings};
use crate::native::mono::instances::{
    Graph, GraphModel, InstanceKey, InstanceKeyModel, Step, empty_graph, enqueue, enqueued,
    find_instance, instances_view, known_symbol, names,
};
use crate::native::mono::retarget::{Env, EnvModel};
use crate::native::mono::rules::{CallRules, body_of, facts_of, find_body, find_facts};
use crate::symbol::{InstanceArg, instance_args_view};
use crate::table::{IdMap, NameMap, id_map};
use crate::text::{cat3, str_eq};
use crate::types::param_decls_view;
use vstd::prelude::*;

verus! {

/// A fully concrete program, and the concrete symbol of every requested entry.
#[derive(Debug)]
pub struct SpecializedProgram {
    pub program: MirProgram,
    pub entries: NameMap<String>,
}

/// Mathematical model of [`SpecializedProgram`].
#[verifier::ext_equal]
pub struct SpecializedModel {
    pub program: MirProgramModel,
    pub entries: Map<Seq<char>, Seq<char>>,
}

impl View for SpecializedProgram {
    type V = SpecializedModel;

    open spec fn view(&self) -> SpecializedModel {
        SpecializedModel { program: self.program@, entries: callables_view(self.entries@) }
    }
}

/// What is known of the registers of a body. A statically named callable is a
/// compile-time constant too.
pub open spec fn body_facts(f: MirFunctionModel, targets: Map<u32, TargetModel>) -> FactsModel {
    FactsModel {
        constants: constant_values(f).union_prefer_right(
            targets.map_values(|t: TargetModel| CtValueModel::Str(t.0)),
        ),
        targets,
    }
}

fn callable_names(targets: &IdMap<(String, bool)>, constants: &mut IdMap<CtValue>)
    ensures
        id_values_view(final(constants)@) == id_values_view(old(constants)@).union_prefer_right(
            target_map_view(targets@).map_values(|t: TargetModel| CtValueModel::Str(t.0)),
        ),
{
    let ghost base = id_values_view(constants@);
    let ghost entries = targets.entries@;
    let ghost named = |m: Map<u32, (String, bool)>| target_map_view(m).map_values(
        |t: TargetModel| CtValueModel::Str(t.0)
    );
    assert(base =~= base.union_prefer_right(named(id_map(entries.take(0)))));
    for i in 0..targets.entries.len()
        invariant
            entries == targets.entries@,
            named == (|m: Map<u32, (String, bool)>|
                target_map_view(m).map_values(|t: TargetModel| CtValueModel::Str(t.0))),
            id_values_view(constants@) == base.union_prefer_right(named(id_map(entries.take(i as int)))),
    {
        let ghost before = constants@;
        assert(entries.take(i + 1).drop_last() =~= entries.take(i as int));
        assert(entries.take(i + 1).last() == entries[i as int]);
        let value: CtValue = CtValue::Str(targets.entries[i].1.0.clone());
        constants.insert(targets.entries[i].0, value);
        let ghost key = entries[i as int].0;
        assert(value@ == CtValueModel::Str(entries[i as int].1.0@));
        assert(id_values_view(constants@) =~= id_values_view(before).insert(key, value@));
        assert(
            named(id_map(entries.take(i + 1))) =~= named(id_map(entries.take(i as int))).insert(key, value@)
        );
        assert(id_values_view(constants@) =~= base.union_prefer_right(named(id_map(entries.take(i + 1)))));
    }
    assert(entries.take(entries.len() as int) =~= entries);
}

/// What is known of the registers of a body.
pub fn facts_of_body(function: &MirFunction, targets: IdMap<(String, bool)>) -> (r: CallFacts)
    ensures
        r@ == body_facts(function@, target_map_view(targets@)),
{
    let mut constants: IdMap<CtValue> = function_constant_values(function);
    callable_names(&targets, &mut constants);
    CallFacts { constants, targets }
}

/// A failure that names the template, where it names no function yet.
pub open spec fn attributed(e: MonoErrorModel, template: Seq<char>) -> MonoErrorModel {
    MonoErrorModel {
        function: match e.function {
            Some(name) => Some(name),
            None => Some(template),
        },
        ..e
    }
}

fn attribute(e: MonoError, template: &str) -> (r: MonoError)
    ensures
        r@ == attributed(e@, template@),
{
    match e.function {
        Some(name) => MonoError { function: Some(name), construct: e.construct },
        None => MonoError { function: Some(template.to_owned()), construct: e.construct },
    }
}

/// A body without its blocks.
pub open spec fn without_blocks(f: MirFunctionModel) -> MirFunctionModel {
    MirFunctionModel { blocks: Seq::empty(), ..f }
}

/// A body whose substituted blocks are rewritten: loops are prepared first, since
/// advancing them needs the types that preparation gives, and then every call takes
/// its concrete symbol.
#[verifier::opaque]
pub open spec fn blocks_specialized<R: CallRules>(
    env: EnvModel<R>,
    g: GraphModel,
    f: MirFunctionModel,
) -> Step<
    MirFunctionModel,
> {
    match prepared_blocks(env, g, without_blocks(f), f.blocks) {
        Err(e) => Err(e),
        Ok(a) => match rewritten_blocks(env, a.0, a.1, a.2) {
            Err(e) => Err(e),
            Ok(c) => Ok((c.0, MirFunctionModel { blocks: c.2, ..c.1 })),
        },
    }
}

/// Whether the outcome of a step that gives a body is the specified one.
pub open spec fn builds(
    graph: Graph,
    r: Result<MirFunction, MonoError>,
    wanted: Step<MirFunctionModel>,
) -> bool {
    match r {
        Ok(f) => wanted == Ok::<(GraphModel, MirFunctionModel), MonoErrorModel>((graph@, f@)),
        Err(e) => wanted == Err::<(GraphModel, MirFunctionModel), MonoErrorModel>(e@),
    }
}

fn specialize_blocks<R: CallRules>(env: &Env<'_, R>, graph: &mut Graph, function: MirFunction) -> (r: Result<
    MirFunction,
    MonoError,
>)
    ensures
        builds(*final(graph), r, blocks_specialized(env@, old(graph)@, function@)),
{
    proof {
        reveal(blocks_specialized);
    }
    let mut body: MirFunction = function;
    let ghost f = body@;
    let blocks: Vec<MirBlock> = copy_blocks(&body.blocks);
    body.blocks = Vec::new();
    assert(blocks_view(body.blocks) =~= Seq::empty());
    assert(body@ =~= without_blocks(f));
    let prepared: Vec<MirBlock> = match prepare_blocks(env, graph, &mut body, &blocks) {
        Ok(v) => v,
        Err(e) => return Err(e),
    };
    let rewritten: Vec<MirBlock> = match rewrite_blocks(env, graph, &mut body, &prepared) {
        Ok(v) => v,
        Err(e) => return Err(e),
    };
    let ghost last = body@;
    body.blocks = rewritten;
    assert(body@ =~= MirFunctionModel { blocks: blocks_view(rewritten), ..last });
    Ok(body)
}

/// The concrete body of an instance.
#[verifier::opaque]
pub open spec fn body_specialized<R: CallRules>(
    rules: R,
    program: MirProgramModel,
    g: GraphModel,
    template: Seq<char>,
    body: MirFunctionModel,
    b: BindingsModel,
) -> Step<MirFunctionModel> {
    match subst_function(body, b) {
        Err(e) => Err(attributed(e, template)),
        Ok(f) => match targets_within(f.blocks, u64::MAX as nat) {
            None => Err(failure_in(template, "callable values do not settle"@)),
            Some(targets) => match blocks_specialized(
                EnvModel { rules, program, owner: template, facts: body_facts(f, targets) },
                g,
                f,
            ) {
                Err(e) => Err(e),
                Ok(s) => {
                    let done = without_generic_callables(repaired(s.1));
                    match concreteness(template, done) {
                        Err(e) => Err(e),
                        Ok(_) => Ok((s.0, done)),
                    }
                },
            },
        },
    }
}

fn specialize_body<R: CallRules>(
    rules: &R,
    program: &MirProgram,
    graph: &mut Graph,
    template: &str,
    body: &MirFunction,
    bindings: &Bindings,
) -> (r: Result<MirFunction, MonoError>)
    ensures
        builds(
            *final(graph),
            r,
            body_specialized(*rules, program@, old(graph)@, template@, body@, bindings@),
        ),
{
    proof {
        reveal(body_specialized);
    }
    let mut function: MirFunction = body.copy();
    if let Err(e) = substitute_function(&mut function, bindings) {
        return Err(attribute(e, template));
    }
    let targets: IdMap<(String, bool)> = match settled_callable_targets(&function, u64::MAX) {
        Some(t) => t,
        None => return Err(fail_in(template, "callable values do not settle".to_owned())),
    };
    let facts: CallFacts = facts_of_body(&function, targets);
    let env: Env<'_, R> = Env { rules, program, owner: template, facts: &facts };
    let mut done: MirFunction = match specialize_blocks(&env, graph, function) {
        Ok(f) => f,
        Err(e) => return Err(e),
    };
    repair_storage_result_types(&mut done);
    erase_specialized_generic_callable_storage(&mut done);
    match ensure_concrete_function(template, &done) {
        Ok(()) => Ok(done),
        Err(e) => Err(e),
    }
}

/// The concrete declarations of an instance: none, where its template has none.
#[verifier::opaque]
pub open spec fn declaration_specialized(
    program: MirProgramModel,
    template: Seq<char>,
    name: Seq<char>,
    b: BindingsModel,
) -> Result<
    Seq<MirFunctionDeclarationModel>,
    MonoErrorModel,
> {
    match facts_of(program.declarations.functions, template) {
        None => Ok(Seq::empty()),
        Some(declaration) => match subst_declaration(declaration, b) {
            Err(e) => Err(e),
            Ok(d) => Ok(
                seq![MirFunctionDeclarationModel { lowered_name: name, param_decls: Seq::empty(), ..d }],
            ),
        },
    }
}

fn specialize_declaration(program: &MirProgram, template: &str, name: &String, bindings: &Bindings, graph: &mut Graph) -> (r: Result<
    (),
    MonoError,
>)
    ensures
        match r {
            Ok(()) => match declaration_specialized(program@, template@, name@, bindings@) {
                Ok(d) => final(graph)@ == (GraphModel { declarations: old(graph)@.declarations + d, ..old(graph)@ }),
                Err(_) => false,
            },
            Err(e) => declaration_specialized(program@, template@, name@, bindings@) == Err::<
                Seq<MirFunctionDeclarationModel>,
                MonoErrorModel,
            >(e@),
        },
{
    proof {
        reveal(declaration_specialized);
    }
    let ghost g = graph@;
    match find_facts(&program.declarations.functions, template) {
        None => {
            assert(graph@ =~= GraphModel { declarations: g.declarations + Seq::empty(), ..g });
            Ok(())
        },
        Some(declaration) => {
            let mut d: MirFunctionDeclaration = declaration.copy();
            if let Err(e) = substitute_declaration(&mut d, bindings) {
                return Err(e);
            }
            let ghost solved = d@;
            d.lowered_name = name.clone();
            d.param_decls = Vec::new();
            assert(param_decls_view(d.param_decls) =~= Seq::empty());
            assert(
                d@ =~= MirFunctionDeclarationModel {
                    lowered_name: name@,
                    param_decls: Seq::empty(),
                    ..solved
                }
            );
            let ghost model = d@;
            graph.declarations.push(d);
            assert(graph@.declarations =~= g.declarations + seq![model]);
            assert(graph@ =~= GraphModel { declarations: g.declarations + seq![model], ..g });
            Ok(())
        },
    }
}

/// Building one instance: its body, and in the graph its declaration and the structs
/// it needs.
#[verifier::opaque]
pub open spec fn materialized<R: CallRules>(
    rules: R,
    program: MirProgramModel,
    g: GraphModel,
    key: InstanceKeyModel,
    name: Seq<char>,
    b: BindingsModel,
) -> Step<MirFunctionModel> {
    match body_of(program.functions, key.template) {
        None => Err(failure_in(key.template, "callee `"@ + key.template + "` has no MIR body"@)),
        Some(body) => match body_specialized(rules, program, g, key.template, body, b) {
            Err(e) => Err(e),
            Ok(s) => match declaration_specialized(program, key.template, name, b) {
                Err(e) => Err(e),
                Ok(d) => match structs_discovered(
                    program,
                    GraphModel { declarations: s.0.declarations + d, ..s.0 },
                    key.template,
                    s.1,
                ) {
                    Err(e) => Err(e),
                    Ok(t) => Ok((t.0, s.1)),
                },
            },
        },
    }
}

/// Builds one instance.
pub fn materialize<R: CallRules>(
    rules: &R,
    program: &MirProgram,
    graph: &mut Graph,
    key: &InstanceKey,
    name: &String,
    bindings: &Bindings,
) -> (r: Result<MirFunction, MonoError>)
    ensures
        builds(
            *final(graph),
            r,
            materialized(*rules, program@, old(graph)@, key@, name@, bindings@),
        ),
{
    proof {
        reveal(materialized);
    }
    let body: &MirFunction = match find_body(&program.functions, &key.template) {
        Some(f) => f,
        None => return Err(fail_in(&key.template, cat3("callee `", &key.template, "` has no MIR body"))),
    };
    let function: MirFunction = match specialize_body(rules, program, graph, &key.template, body, bindings) {
        Ok(f) => f,
        Err(e) => return Err(e),
    };
    if let Err(e) = specialize_declaration(program, &key.template, name, bindings, graph) {
        return Err(e);
    }
    if let Err(e) = discover_structs(program, graph, &key.template, &function) {
        return Err(e);
    }
    Ok(function)
}

/// Whether an instance is built.
pub open spec fn is_built(functions: Seq<(Seq<char>, MirFunctionModel)>, name: Seq<char>) -> bool {
    body_of(functions, name) is Some
}

/// How many instances a program may have.
pub const INSTANCE_BUDGET: usize = 4096;

/// The functions of a concrete program, with their symbols.
pub type Built = Seq<(Seq<char>, MirFunctionModel)>;

/// Building the queued instances, first come first, until none is left. `done` are
/// the functions built so far.
pub open spec fn drained<R: CallRules>(
    rules: R,
    program: MirProgramModel,
    g: GraphModel,
    done: Built,
) -> Step<Built>
    decreases INSTANCE_BUDGET - done.len(), g.queue.len(),
{
    if g.queue.len() == 0 {
        Ok((g, done))
    } else {
        let key = g.queue[0].0;
        let b = g.queue[0].1;
        let rest = GraphModel { queue: g.queue.skip(1), ..g };
        match known_symbol(g.instances, key) {
            None => Err(failure_in(key.template, "queued instance has no identity"@)),
            Some(name) => if is_built(done, name) {
                drained(rules, program, rest, done)
            } else if done.len() >= INSTANCE_BUDGET {
                Err(failure_in(key.template, "polymorphic recursion exceeded the 4096-instance budget"@))
            } else {
                match materialized(rules, program, rest, key, name, b) {
                    Err(e) => Err(e),
                    Ok(s) => drained(rules, program, s.0, done.push((name, s.1))),
                }
            },
        }
    }
}

/// Builds the queued instances until none is left.
pub fn drain<R: CallRules>(rules: &R, program: &MirProgram, graph: &mut Graph) -> (r: Result<
    Vec<(String, MirFunction)>,
    MonoError,
>)
    ensures
        ({
            let wanted = drained(*rules, program@, old(graph)@, Seq::empty());
            match r {
                Ok(functions) => wanted == Ok::<(GraphModel, Built), MonoErrorModel>(
                    (final(graph)@, string_functions_view(functions)),
                ),
                Err(e) => wanted == Err::<(GraphModel, Built), MonoErrorModel>(e@),
            }
        }),
{
    let ghost wanted = drained(*rules, program@, graph@, Seq::empty());
    let mut done: Vec<(String, MirFunction)> = Vec::new();
    assert(string_functions_view(done) =~= Seq::empty());
    while graph.queue.len() > 0
        invariant
            done@.len() <= INSTANCE_BUDGET,
            wanted == drained(*rules, program@, graph@, string_functions_view(done)),
            wanted == drained(*rules, program@, old(graph)@, Seq::empty()),
        decreases INSTANCE_BUDGET - done@.len(), graph.queue@.len(),
    {
        let ghost g = graph@;
        let ghost built = string_functions_view(done);
        assert(built.len() == done@.len());
        assert(g.queue.len() == graph.queue@.len());
        assert(g.queue[0] == (graph.queue@[0].0@, graph.queue@[0].1@));
        let next: (InstanceKey, Bindings) = graph.queue.remove(0);
        assert(graph@.queue =~= g.queue.skip(1));
        assert(graph@ =~= GraphModel { queue: g.queue.skip(1), ..g });
        let name: String = match find_instance(&graph.instances, &next.0) {
            Some(name) => name.clone(),
            None => return Err(fail_in(&next.0.template, "queued instance has no identity".to_owned())),
        };
        if find_body(&done, &name).is_none() {
            if done.len() >= INSTANCE_BUDGET {
                return Err(
                    fail_in(
                        &next.0.template,
                        "polymorphic recursion exceeded the 4096-instance budget".to_owned(),
                    ),
                );
            }
            let function: MirFunction = match materialize(rules, program, graph, &next.0, &name, &next.1) {
                Ok(f) => f,
                Err(e) => return Err(e),
            };
            let ghost pair = (name@, function@);
            done.push((name, function));
            assert(string_functions_view(done) =~= built.push(pair));
        }
    }
    assert(graph@.queue.len() == graph.queue@.len());
    Ok(done)
}

/// Whether no symbolic type is left in any of the functions.
pub open spec fn all_concrete(functions: Built) -> bool {
    forall|i: int| 0 <= i < functions.len() ==> first_symbolic(
        carried_types((#[trigger] functions[i]).1)
    ) is None
}

/// Whether no two functions have one symbol.
pub open spec fn symbols_distinct(functions: Built) -> bool {
    forall|i: int, j: int| 0 <= i < j < functions.len() ==> (#[trigger] functions[i]).0 != (#[trigger] functions[j]).0
}

/// A symbol that names none of the functions is none of their symbols.
proof fn lemma_not_built(functions: Built, name: Seq<char>)
    ensures
        is_built(functions, name) || forall|i: int| 0 <= i < functions.len() ==> (#[trigger] functions[i]).0 != name,
    decreases functions.len(),
{
    if functions.len() > 0 && functions.last().0 != name {
        lemma_not_built(functions.drop_last(), name);
        if !is_built(functions, name) {
            assert forall|i: int| 0 <= i < functions.len() implies (#[trigger] functions[i]).0 != name by {
                if i < functions.len() - 1 {
                    assert(functions.drop_last()[i] == functions[i]);
                }
            }
        }
    }
}

/// Building keeps the functions concrete, their symbols distinct and their number
/// within the budget.
proof fn lemma_drained<R: CallRules>(rules: R, program: MirProgramModel, g: GraphModel, done: Built)
    requires
        all_concrete(done),
        symbols_distinct(done),
        done.len() <= INSTANCE_BUDGET,
    ensures
        drained(rules, program, g, done) matches Ok(s) ==> all_concrete(s.1)
            && symbols_distinct(s.1)
            && s.1.len()
            <= INSTANCE_BUDGET,
    decreases INSTANCE_BUDGET - done.len(), g.queue.len(),
{
    if g.queue.len() > 0 {
        let key = g.queue[0].0;
        let rest = GraphModel { queue: g.queue.skip(1), ..g };
        if let Some(name) = known_symbol(g.instances, key) {
            if is_built(done, name) {
                lemma_drained(rules, program, rest, done);
            } else if done.len() < INSTANCE_BUDGET {
                if let Ok(s) = materialized(rules, program, rest, key, name, g.queue[0].1) {
                    reveal(materialized);
                    reveal(body_specialized);
                    let next = done.push((name, s.1));
                    assert(first_symbolic(carried_types(s.1)) is None);
                    lemma_not_built(done, name);
                    assert forall|i: int| 0 <= i < next.len() implies first_symbolic(
                        carried_types((#[trigger] next[i]).1),
                    ) is None by {
                        if i < done.len() {
                            assert(next[i] == done[i]);
                        }
                    }
                    assert forall|i: int, j: int| 0 <= i < j < next.len() implies (#[trigger] next[i]).0 != (
                    #[trigger] next[j]).0 by {
                        assert(next[i] == done[i]);
                        if j < done.len() {
                            assert(next[j] == done[j]);
                        }
                    }
                    lemma_drained(rules, program, s.0, next);
                }
            }
        }
    }
}

/// The failure of an entry that the program lacks.
pub open spec fn missing_entry(entry: Seq<char>) -> MonoErrorModel {
    MonoErrorModel {
        function: None,
        construct: "entry function `"@ + entry + "` (not found in the MIR program)"@,
    }
}

/// Asking for one entry, which has to be there and must not be generic.
#[verifier::opaque]
pub open spec fn entry_requested(program: MirProgramModel, g: GraphModel, entry: Seq<char>) -> Step<Seq<char>> {
    if body_of(program.functions, entry) is None {
        Err(missing_entry(entry))
    } else {
        match facts_of(program.declarations.functions, entry) {
            Some(declaration) => if declaration.param_decls.len() > 0 {
                Err(failure_in(entry, "generic entry `"@ + entry + "` has unresolved parameters"@))
            } else {
                enqueued(program, g, entry, fresh_bindings(program), Seq::empty())
            },
            None => enqueued(program, g, entry, fresh_bindings(program), Seq::empty()),
        }
    }
}

fn request_entry(program: &MirProgram, graph: &mut Graph, entry: &String) -> (r: Result<String, MonoError>)
    ensures
        names(*final(graph), r, entry_requested(program@, old(graph)@, entry@)),
{
    proof {
        reveal(entry_requested);
    }
    if find_body(&program.functions, entry).is_none() {
        return Err(
            MonoError {
                function: None,
                construct: cat3("entry function `", entry, "` (not found in the MIR program)"),
            },
        );
    }
    if let Some(declaration) = find_facts(&program.declarations.functions, entry) {
        assert(declaration@.param_decls.len() == declaration.param_decls@.len());
        if declaration.param_decls.len() > 0 {
            return Err(fail_in(entry, cat3("generic entry `", entry, "` has unresolved parameters")));
        }
    }
    let none: Vec<InstanceArg> = Vec::new();
    assert(instance_args_view(none) =~= Seq::empty());
    enqueue(program, graph, entry, base_bindings(program), none)
}

/// Asking for the first `n` entries: their symbols by name.
pub open spec fn entries_requested(
    program: MirProgramModel,
    g: GraphModel,
    entries: Seq<Seq<char>>,
    n: nat,
) -> Step<
    Map<Seq<char>, Seq<char>>,
>
    decreases n,
{
    if n == 0 {
        Ok((g, Map::empty()))
    } else {
        match entries_requested(program, g, entries, (n - 1) as nat) {
            Err(e) => Err(e),
            Ok(s) => match entry_requested(program, s.0, entries[n - 1]) {
                Err(e) => Err(e),
                Ok(t) => Ok((t.0, s.1.insert(entries[n - 1], t.1))),
            },
        }
    }
}

proof fn lemma_entries_error(program: MirProgramModel, g: GraphModel, entries: Seq<Seq<char>>, n: nat, m: nat)
    requires
        n <= m,
        entries_requested(program, g, entries, n) is Err,
    ensures
        entries_requested(program, g, entries, m) == entries_requested(program, g, entries, n),
    decreases m,
{
    if n < m {
        lemma_entries_error(program, g, entries, n, (m - 1) as nat);
    }
}

fn request_entries(
    program: &MirProgram,
    graph: &mut Graph,
    entries: &Vec<String>,
) -> (r: Result<NameMap<String>, MonoError>)
    ensures
        ({
            let wanted = entries_requested(program@, old(graph)@, strings_view(*entries), entries@.len());
            match r {
                Ok(m) => wanted == Ok::<(GraphModel, Map<Seq<char>, Seq<char>>), MonoErrorModel>(
                    (final(graph)@, callables_view(m@)),
                ),
                Err(e) => wanted == Err::<(GraphModel, Map<Seq<char>, Seq<char>>), MonoErrorModel>(e@),
            }
        }),
{
    let ghost g = graph@;
    let ghost model = strings_view(*entries);
    let mut out: NameMap<String> = NameMap::new();
    assert(callables_view(out@) =~= Map::empty());
    for i in 0..entries.len()
        invariant
            g == old(graph)@,
            model == strings_view(*entries),
            entries_requested(program@, g, model, i as nat) == Ok::<
                (GraphModel, Map<Seq<char>, Seq<char>>),
                MonoErrorModel,
            >((graph@, callables_view(out@))),
    {
        assert(model[i as int] == entries@[i as int]@);
        match request_entry(program, graph, &entries[i]) {
            Ok(name) => {
                let ghost before = out@;
                let ghost symbol = name@;
                out.insert(entries[i].clone(), name);
                assert(callables_view(out@) =~= callables_view(before).insert(model[i as int], symbol));
                assert(entries_requested(program@, g, model, (i + 1) as nat) == Ok::<
                    (GraphModel, Map<Seq<char>, Seq<char>>),
                    MonoErrorModel,
                >((graph@, callables_view(out@))));
            },
            Err(e) => {
                proof {
                    assert(entries_requested(program@, g, model, (i + 1) as nat) == Err::<
                        (GraphModel, Map<Seq<char>, Seq<char>>),
                        MonoErrorModel,
                    >(e@));
                    lemma_entries_error(program@, g, model, (i + 1) as nat, model.len());
                }
                return Err(e);
            },
        }
    }
    Ok(out)
}

/// Where a key goes among positions that are sorted by key: behind every key that
/// is not greater.
pub open spec fn place_behind(positions: Seq<int>, keys: Seq<usize>, key: usize, from: int) -> int
    decreases positions.len() - from,
{
    if from < 0 || from >= positions.len() || keys[positions[from]] > key {
        from
    } else {
        place_behind(positions, keys, key, from + 1)
    }
}

/// The positions of keys in ascending order; equal keys keep their order.
pub open spec fn sorted_positions(keys: Seq<usize>, n: nat) -> Seq<int>
    decreases n,
{
    if n == 0 {
        Seq::empty()
    } else {
        let before = sorted_positions(keys, (n - 1) as nat);
        before.insert(place_behind(before, keys, keys[n - 1], 0), n - 1)
    }
}

pub proof fn lemma_place_behind(positions: Seq<int>, keys: Seq<usize>, key: usize, from: int)
    requires
        0 <= from <= positions.len(),
    ensures
        from <= place_behind(positions, keys, key, from) <= positions.len(),
        forall|i: int| from <= i < place_behind(positions, keys, key, from) ==> keys[#[trigger] positions[i]] <= key,
        place_behind(positions, keys, key, from) < positions.len() ==> keys[positions[place_behind(
            positions,
            keys,
            key,
            from,
        )]] > key,
    decreases positions.len() - from,
{
    if from < positions.len() && keys[positions[from]] <= key {
        lemma_place_behind(positions, keys, key, from + 1);
    }
}

/// Whether one position comes before another: by key, and by position where the
/// keys are equal.
pub open spec fn stably_before(keys: Seq<usize>, a: int, b: int) -> bool {
    keys[a] < keys[b] || (keys[a] == keys[b] && a < b)
}

/// The sorted positions name each position once, and are in stable order.
pub proof fn law_sorted_positions(keys: Seq<usize>, n: nat)
    requires
        n <= keys.len(),
    ensures
        sorted_positions(keys, n).len() == n,
        forall|i: int| 0 <= i < n ==> 0 <= #[trigger] sorted_positions(keys, n)[i] < n,
        forall|i: int, j: int|
            0 <= i < j < n ==> stably_before(
                keys,
                #[trigger] sorted_positions(keys, n)[i],
                #[trigger] sorted_positions(keys, n)[j],
            ),
    decreases n,
{
    if n > 0 {
        let m = (n - 1) as nat;
        law_sorted_positions(keys, m);
        let before = sorted_positions(keys, m);
        let p = place_behind(before, keys, keys[m as int], 0);
        lemma_place_behind(before, keys, keys[m as int], 0);
        let after = sorted_positions(keys, n);
        assert(after == before.insert(p, m as int));
        assert forall|i: int| 0 <= i < n implies 0 <= #[trigger] after[i] < n by {
            if i < p {
                assert(after[i] == before[i]);
            } else if i > p {
                assert(after[i] == before[i - 1]);
            }
        }
        assert forall|i: int, j: int| 0 <= i < j < n implies stably_before(
            keys,
            #[trigger] after[i],
            #[trigger] after[j],
        ) by {
            if j < p {
                assert(after[i] == before[i] && after[j] == before[j]);
            } else if j == p {
                assert(after[i] == before[i]);
                assert(keys[before[i]] <= keys[m as int]);
            } else if i < p {
                assert(after[i] == before[i] && after[j] == before[j - 1]);
            } else if i == p {
                assert(after[j] == before[j - 1]);
                if j - 1 > p {
                    assert(stably_before(keys, before[p], before[j - 1]));
                }
            } else {
                assert(after[i] == before[i - 1] && after[j] == before[j - 1]);
            }
        }
    }
}

/// The model of a list of positions.
pub open spec fn positions_view(positions: Seq<usize>) -> Seq<int> {
    Seq::new(positions.len(), |i: int| positions[i] as int)
}

fn sort_positions(keys: &Vec<usize>) -> (r: Vec<usize>)
    ensures
        positions_view(r@) == sorted_positions(keys@, keys@.len()),
        r@.len() == keys@.len(),
        forall|i: int| 0 <= i < r@.len() ==> #[trigger] r@[i] < keys@.len(),
{
    let mut out: Vec<usize> = Vec::new();
    assert(positions_view(out@) =~= sorted_positions(keys@, 0));
    for n in 0..keys.len()
        invariant
            positions_view(out@) == sorted_positions(keys@, n as nat),
    {
        proof {
            law_sorted_positions(keys@, n as nat);
        }
        let ghost before = positions_view(out@);
        assert(out@.len() == n);
        assert forall|i: int| 0 <= i < n implies #[trigger] out@[i] < n by {
            assert(before[i] == out@[i]);
        }
        let key: usize = keys[n];
        let mut p: usize = 0;
        while p < out.len() && keys[out[p]] <= key
            invariant
                n < keys@.len(),
                key == keys@[n as int],
                before == positions_view(out@),
                out@.len() == n,
                p <= out@.len(),
                forall|i: int| 0 <= i < n ==> #[trigger] out@[i] < n,
                place_behind(before, keys@, key, 0) == place_behind(before, keys@, key, p as int),
            decreases out@.len() - p,
        {
            assert(before[p as int] == out@[p as int]);
            p = p + 1;
        }
        assert(p < n ==> before[p as int] == out@[p as int]);
        out.insert(p, n);
        assert(positions_view(out@) =~= before.insert(p as int, n as int));
    }
    proof {
        law_sorted_positions(keys@, keys@.len());
    }
    assert forall|i: int| 0 <= i < out@.len() implies #[trigger] out@[i] < keys@.len() by {
        assert(positions_view(out@)[i] == out@[i]);
    }
    out
}

/// Where the program has the template of an instance.
pub open spec fn template_order(functions: Seq<(Seq<char>, MirFunctionModel)>, template: Seq<char>) -> usize
    decreases functions.len(),
{
    if functions.len() == 0 {
        usize::MAX
    } else if functions.last().0 == template {
        (functions.len() - 1) as usize
    } else {
        template_order(functions.drop_last(), template)
    }
}

/// The template that an instance symbol comes from, or the symbol itself.
pub open spec fn template_for(instances: Seq<(InstanceKeyModel, Seq<char>)>, name: Seq<char>) -> Seq<char>
    decreases instances.len(),
{
    if instances.len() == 0 {
        name
    } else if instances.last().1 == name {
        instances.last().0.template
    } else {
        template_for(instances.drop_last(), name)
    }
}

fn order_of_template(functions: &Vec<(String, MirFunction)>, template: &str) -> (r: usize)
    ensures
        r == template_order(string_functions_view(*functions), template@),
{
    let ghost model = string_functions_view(*functions);
    let mut n: usize = functions.len();
    assert(model.take(n as int) =~= model);
    while n > 0
        invariant
            model == string_functions_view(*functions),
            n <= functions@.len(),
            template_order(model, template@) == template_order(model.take(n as int), template@),
        decreases n,
    {
        assert(model.take(n as int).last() == (functions@[n - 1].0@, functions@[n - 1].1@));
        assert(model.take(n as int).drop_last() =~= model.take(n - 1));
        if str_eq(&functions[n - 1].0, template) {
            return n - 1;
        }
        n = n - 1;
    }
    usize::MAX
}

fn find_template<'a>(instances: &'a Vec<(InstanceKey, String)>, name: &'a String) -> (r: &'a String)
    ensures
        r@ == template_for(instances_view(instances@), name@),
{
    let ghost model = instances_view(instances@);
    let mut n: usize = instances.len();
    assert(model.take(n as int) =~= model);
    while n > 0
        invariant
            model == instances_view(instances@),
            n <= instances@.len(),
            template_for(model, name@) == template_for(model.take(n as int), name@),
        decreases n,
    {
        assert(model.take(n as int).last() == (instances@[n - 1].0@, instances@[n - 1].1@));
        assert(model.take(n as int).drop_last() =~= model.take(n - 1));
        if str_eq(&instances[n - 1].1, name) {
            return &instances[n - 1].0.template;
        }
        n = n - 1;
    }
    name
}

/// Where each symbol is sorted to: where the program has its template.
pub open spec fn symbol_keys(program: MirProgramModel, g: GraphModel, symbols: Seq<Seq<char>>) -> Seq<usize> {
    Seq::new(
        symbols.len(),
        |i: int| template_order(program.functions, template_for(g.instances, symbols[i])),
    )
}

fn keys_of_symbols(program: &MirProgram, graph: &Graph, symbols: &Vec<String>) -> (r: Vec<usize>)
    ensures
        r@ == symbol_keys(program@, graph@, strings_view(*symbols)),
{
    let ghost model = strings_view(*symbols);
    let mut out: Vec<usize> = Vec::new();
    for i in 0..symbols.len()
        invariant
            model == strings_view(*symbols),
            out@.len() == i,
            forall|j: int| 0 <= j < i ==> #[trigger] out@[j] == symbol_keys(program@, graph@, model)[j],
    {
        assert(model[i as int] == symbols@[i as int]@);
        out.push(order_of_template(&program.functions, find_template(&graph.instances, &symbols[i])));
    }
    assert(out@ =~= symbol_keys(program@, graph@, model));
    out
}

/// Items in the stable order of the templates that their symbols come from.
pub open spec fn in_template_order<T>(
    program: MirProgramModel,
    g: GraphModel,
    symbols: Seq<Seq<char>>,
    items: Seq<T>,
) -> Seq<T> {
    let keys = symbol_keys(program, g, symbols);
    Seq::new(items.len(), |i: int| items[sorted_positions(keys, keys.len())[i]])
}

/// The symbols of functions.
pub open spec fn function_symbols(functions: Seq<(Seq<char>, MirFunctionModel)>) -> Seq<Seq<char>> {
    Seq::new(functions.len(), |i: int| functions[i].0)
}

/// The symbols of declarations.
pub open spec fn declaration_symbols(declarations: Seq<MirFunctionDeclarationModel>) -> Seq<Seq<char>> {
    Seq::new(declarations.len(), |i: int| declarations[i].lowered_name)
}

fn symbols_of_functions(functions: &Vec<(String, MirFunction)>) -> (r: Vec<String>)
    ensures
        strings_view(r) == function_symbols(string_functions_view(*functions)),
{
    let ghost model = string_functions_view(*functions);
    let mut out: Vec<String> = Vec::new();
    for i in 0..functions.len()
        invariant
            model == string_functions_view(*functions),
            out@.len() == i,
            forall|j: int| 0 <= j < i ==> #[trigger] strings_view(out)[j] == model[j].0,
    {
        assert(model[i as int].0 == functions@[i as int].0@);
        let ghost before = out;
        out.push(functions[i].0.clone());
        assert forall|j: int| 0 <= j < i + 1 implies #[trigger] strings_view(out)[j] == model[j].0 by {
            if j < i {
                assert(strings_view(before)[j] == strings_view(out)[j]);
            }
        }
    }
    assert(strings_view(out) =~= function_symbols(model));
    out
}

fn symbols_of_declarations(declarations: &Vec<MirFunctionDeclaration>) -> (r: Vec<String>)
    ensures
        strings_view(r) == declaration_symbols(function_declarations_view(*declarations)),
{
    let ghost model = function_declarations_view(*declarations);
    let mut out: Vec<String> = Vec::new();
    for i in 0..declarations.len()
        invariant
            model == function_declarations_view(*declarations),
            out@.len() == i,
            forall|j: int| 0 <= j < i ==> #[trigger] strings_view(out)[j] == model[j].lowered_name,
    {
        assert(model[i as int] == declarations@[i as int]@);
        let ghost before = out;
        out.push(declarations[i].lowered_name.clone());
        assert forall|j: int| 0 <= j < i + 1 implies #[trigger] strings_view(out)[j] == model[j].lowered_name by {
            if j < i {
                assert(strings_view(before)[j] == strings_view(out)[j]);
            }
        }
    }
    assert(strings_view(out) =~= declaration_symbols(model));
    out
}

fn order_functions(
    program: &MirProgram,
    graph: &Graph,
    functions: &Vec<(String, MirFunction)>,
) -> (r: Vec<(String, MirFunction)>)
    ensures
        string_functions_view(r) == in_template_order(
            program@,
            graph@,
            function_symbols(string_functions_view(*functions)),
            string_functions_view(*functions),
        ),
{
    let ghost model = string_functions_view(*functions);
    let symbols: Vec<String> = symbols_of_functions(functions);
    let keys: Vec<usize> = keys_of_symbols(program, graph, &symbols);
    let positions: Vec<usize> = sort_positions(&keys);
    let ghost wanted = in_template_order(program@, graph@, function_symbols(model), model);
    let mut out: Vec<(String, MirFunction)> = Vec::new();
    for i in 0..positions.len()
        invariant
            model == string_functions_view(*functions),
            positions@.len() == functions@.len(),
            forall|k: int| 0 <= k < positions@.len() ==> #[trigger] positions@[k] < functions@.len(),
            positions_view(positions@) == sorted_positions(
                symbol_keys(program@, graph@, function_symbols(model)),
                model.len(),
            ),
            wanted == in_template_order(program@, graph@, function_symbols(model), model),
            out@.len() == i,
            forall|j: int| 0 <= j < i ==> #[trigger] string_functions_view(out)[j] == wanted[j],
    {
        let at: usize = positions[i];
        assert(positions_view(positions@)[i as int] == at);
        assert(model[at as int] == (functions@[at as int].0@, functions@[at as int].1@));
        let ghost before = out;
        out.push((functions[at].0.clone(), functions[at].1.copy()));
        assert(string_functions_view(out)[i as int] == model[at as int]);
        assert forall|j: int| 0 <= j < i + 1 implies #[trigger] string_functions_view(out)[j] == wanted[j] by {
            if j < i {
                assert(string_functions_view(before)[j] == string_functions_view(out)[j]);
            }
        }
    }
    assert(string_functions_view(out) =~= wanted);
    out
}

fn order_declarations(program: &MirProgram, graph: &Graph) -> (r: Vec<MirFunctionDeclaration>)
    ensures
        function_declarations_view(r) == in_template_order(
            program@,
            graph@,
            declaration_symbols(graph@.declarations),
            graph@.declarations,
        ),
{
    let ghost model = function_declarations_view(graph.declarations);
    let symbols: Vec<String> = symbols_of_declarations(&graph.declarations);
    let keys: Vec<usize> = keys_of_symbols(program, graph, &symbols);
    let positions: Vec<usize> = sort_positions(&keys);
    let ghost wanted = in_template_order(program@, graph@, declaration_symbols(model), model);
    let mut out: Vec<MirFunctionDeclaration> = Vec::new();
    for i in 0..positions.len()
        invariant
            model == function_declarations_view(graph.declarations),
            positions@.len() == graph.declarations@.len(),
            forall|k: int| 0 <= k < positions@.len() ==> #[trigger] positions@[k] < graph.declarations@.len(),
            positions_view(positions@) == sorted_positions(
                symbol_keys(program@, graph@, declaration_symbols(model)),
                model.len(),
            ),
            wanted == in_template_order(program@, graph@, declaration_symbols(model), model),
            out@.len() == i,
            forall|j: int| 0 <= j < i ==> #[trigger] function_declarations_view(out)[j] == wanted[j],
    {
        let at: usize = positions[i];
        assert(positions_view(positions@)[i as int] == at);
        assert(model[at as int] == graph.declarations@[at as int]@);
        let ghost before = out;
        out.push(graph.declarations[at].copy());
        assert(function_declarations_view(out)[i as int] == model[at as int]);
        assert forall|j: int| 0 <= j < i + 1 implies #[trigger] function_declarations_view(out)[j] == wanted[j] by {
            if j < i {
                assert(function_declarations_view(before)[j] == function_declarations_view(out)[j]);
            }
        }
    }
    assert(function_declarations_view(out) =~= wanted);
    out
}

/// The program that a built graph is: functions and declarations in the order of
/// their templates.
pub open spec fn assembled(program: MirProgramModel, g: GraphModel, functions: Built) -> MirProgramModel {
    MirProgramModel {
        functions: in_template_order(program, g, function_symbols(functions), functions),
        declarations: MirDeclarationsModel {
            structs: g.structs,
            functions: in_template_order(program, g, declaration_symbols(g.declarations), g.declarations),
        },
        invariant_errors: program.invariant_errors,
    }
}

/// The concrete program reachable from the entries, or why there is none.
#[verifier::opaque]
pub open spec fn specialized<R: CallRules>(
    rules: R,
    program: MirProgramModel,
    entries: Seq<Seq<char>>,
) -> Result<
    SpecializedModel,
    MonoErrorModel,
> {
    match entries_requested(program, empty_graph(), entries, entries.len()) {
        Err(e) => Err(e),
        Ok(s) => match drained(rules, program, s.0, Seq::empty()) {
            Err(e) => Err(e),
            Ok(t) => Ok(SpecializedModel { program: assembled(program, t.0, t.1), entries: s.1 }),
        },
    }
}

/// Specializes the graph reachable from `entries` without modifying `program`.
pub fn specialize<R: CallRules>(rules: &R, program: &MirProgram, entries: &Vec<String>) -> (r: Result<
    SpecializedProgram,
    MonoError,
>)
    ensures
        match r {
            Ok(p) => specialized(
                *rules,
                program@,
                strings_view(*entries),
            ) == Ok::<SpecializedModel, MonoErrorModel>(p@),
            Err(e) => specialized(*rules, program@, strings_view(*entries)) == Err::<SpecializedModel, MonoErrorModel>(
                e@,
            ),
        },
{
    proof {
        reveal(specialized);
    }
    assert(strings_view(*entries).len() == entries@.len());
    let mut graph: Graph = Graph::new();
    let names: NameMap<String> = match request_entries(program, &mut graph, entries) {
        Ok(names) => names,
        Err(e) => return Err(e),
    };
    let functions: Vec<(String, MirFunction)> = match drain(rules, program, &mut graph) {
        Ok(functions) => functions,
        Err(e) => return Err(e),
    };
    let declarations: MirDeclarations = MirDeclarations {
        structs: copy_struct_declarations(&graph.structs),
        functions: order_declarations(program, &graph),
    };
    let concrete: MirProgram = MirProgram {
        functions: order_functions(program, &graph, &functions),
        declarations,
        invariant_errors: copy_strings(&program.invariant_errors),
    };
    assert(concrete@ =~= assembled(program@, graph@, string_functions_view(functions)));
    Ok(SpecializedProgram { program: concrete, entries: names })
}

/// A specialized program is concrete: no symbolic type is left in any function, no
/// two functions share a symbol, and there are no more of them than the budget.
pub proof fn law_specialized_program_is_concrete<R: CallRules>(
    rules: R,
    program: MirProgramModel,
    entries: Seq<Seq<char>>,
)
    requires
        specialized(rules, program, entries) is Ok,
    ensures
        ({
            let functions = specialized(rules, program, entries)->Ok_0.program.functions;
            all_concrete(functions) && symbols_distinct(functions) && functions.len() <= INSTANCE_BUDGET
        }),
{
    reveal(specialized);
    let s = entries_requested(program, empty_graph(), entries, entries.len())->Ok_0;
    lemma_drained(rules, program, s.0, Seq::empty());
    let t = drained(rules, program, s.0, Seq::empty())->Ok_0;
    let functions = assembled(program, t.0, t.1).functions;
    let keys = symbol_keys(program, t.0, function_symbols(t.1));
    let positions = sorted_positions(keys, keys.len());
    law_sorted_positions(keys, keys.len());
    assert forall|i: int| 0 <= i < functions.len() implies first_symbolic(
        carried_types((#[trigger] functions[i]).1)
    ) is None by {
        assert(functions[i] == t.1[positions[i]]);
    }
    assert forall|i: int, j: int| 0 <= i < j < functions.len() implies (#[trigger] functions[i]).0 != (#[trigger] functions[
    j]).0 by {
        assert(functions[i] == t.1[positions[i]]);
        assert(functions[j] == t.1[positions[j]]);
        assert(stably_before(keys, positions[i], positions[j]));
        assert(positions[i] != positions[j]);
        if positions[i] < positions[j] {
            assert(t.1[positions[i]].0 != t.1[positions[j]].0);
        } else {
            assert(t.1[positions[j]].0 != t.1[positions[i]].0);
        }
    }
}

} // verus!
