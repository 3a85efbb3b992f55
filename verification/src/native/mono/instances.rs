//! The instances of a concrete graph and their symbols.

use crate::data::{copy_opt_string, opt_string_view, same_opt_string};
use crate::mir::{
    MirFunctionDeclaration, MirFunctionDeclarationModel, MirProgram, MirProgramModel,
    MirStructDeclaration, MirStructDeclarationModel, function_declarations_view,
    struct_declarations_view,
};
use crate::native::mono::{MonoError, MonoErrorModel};
use crate::native::mono::bindings::{Bindings, BindingsModel};
use crate::native::mono::infer::{fail_in, failure_in};
use crate::native::mono::rules::{body_of, find_body};
use crate::symbol::{
    InstanceArg, InstanceArgModel, copy_instance_args, instance_args_view, instance_name,
    instance_symbol, retarget_method_symbol, retargeted, same_instance_args,
};
use crate::text::{cat3, str_eq};
use crate::types::{Ty, TyModel};
use vstd::prelude::*;

verus! {

/// The identity of an instance. A method of a generic struct carries its owner's
/// identity apart from its own arguments.
#[derive(Debug, PartialEq, Eq)]
pub struct InstanceKey {
    pub template: String,
    pub arguments: Vec<InstanceArg>,
    pub owner: Option<String>,
}

/// Mathematical model of [`InstanceKey`].
#[verifier::ext_equal]
pub struct InstanceKeyModel {
    pub template: Seq<char>,
    pub arguments: Seq<InstanceArgModel>,
    pub owner: Option<Seq<char>>,
}

/// The model of a [`InstanceKey`].
pub open spec fn instance_key_view(x: InstanceKey) -> InstanceKeyModel
    decreases x,
{
    InstanceKeyModel {
        template: x.template@,
        arguments: instance_args_view(x.arguments),
        owner: match x.owner { Some(x) => Some(x@), None => None },
    }
}

impl View for InstanceKey {
    type V = InstanceKeyModel;

    open spec fn view(&self) -> InstanceKeyModel {
        instance_key_view(*self)
    }
}

impl InstanceKey {
    /// A structural copy.
    pub fn copy(&self) -> (r: InstanceKey)
        ensures
            r@ == self@,
        decreases self,
    {
        InstanceKey {
            template: self.template.clone(),
            arguments: copy_instance_args(&self.arguments),
            owner: copy_opt_string(&self.owner),
        }
    }

    /// Structural equality.
    pub fn same(&self, other: &InstanceKey) -> (r: bool)
        ensures
            r == (self@ == other@),
        decreases self,
    {
        self.template == other.template
            && same_instance_args(&self.arguments, &other.arguments)
            && same_opt_string(&self.owner, &other.owner)
    }
}

impl Clone for InstanceKey {
    fn clone(&self) -> (r: InstanceKey)
        ensures
            r@ == self@,
    {
        self.copy()
    }
}

/// The concrete graph as it grows: the instances still to build, every known
/// instance with its symbol, and the declarations and structs of what is built.
#[derive(Debug)]
pub struct Graph {
    pub queue: Vec<(InstanceKey, Bindings)>,
    pub instances: Vec<(InstanceKey, String)>,
    pub declarations: Vec<MirFunctionDeclaration>,
    pub structs: Vec<MirStructDeclaration>,
}

/// Mathematical model of [`Graph`].
#[verifier::ext_equal]
pub struct GraphModel {
    pub queue: Seq<(InstanceKeyModel, BindingsModel)>,
    pub instances: Seq<(InstanceKeyModel, Seq<char>)>,
    pub declarations: Seq<MirFunctionDeclarationModel>,
    pub structs: Seq<MirStructDeclarationModel>,
}

/// The model of a queue.
pub open spec fn queue_view(queue: Seq<(InstanceKey, Bindings)>) -> Seq<(InstanceKeyModel, BindingsModel)> {
    Seq::new(queue.len(), |i: int| (queue[i].0@, queue[i].1@))
}

/// The model of a list of instances.
pub open spec fn instances_view(instances: Seq<(InstanceKey, String)>) -> Seq<(InstanceKeyModel, Seq<char>)> {
    Seq::new(instances.len(), |i: int| (instances[i].0@, instances[i].1@))
}

impl View for Graph {
    type V = GraphModel;

    open spec fn view(&self) -> GraphModel {
        GraphModel {
            queue: queue_view(self.queue@),
            instances: instances_view(self.instances@),
            declarations: function_declarations_view(self.declarations),
            structs: struct_declarations_view(self.structs),
        }
    }
}

/// A graph of nothing.
pub open spec fn empty_graph() -> GraphModel {
    GraphModel {
        queue: Seq::empty(),
        instances: Seq::empty(),
        declarations: Seq::empty(),
        structs: Seq::empty(),
    }
}

impl Graph {
    /// A graph of nothing.
    pub fn new() -> (r: Graph)
        ensures
            r@ == empty_graph(),
    {
        let r: Graph = Graph {
            queue: Vec::new(),
            instances: Vec::new(),
            declarations: Vec::new(),
            structs: Vec::new(),
        };
        assert(r@ =~= empty_graph());
        r
    }
}

/// The symbol of a known instance.
pub open spec fn known_symbol(
    instances: Seq<(InstanceKeyModel, Seq<char>)>,
    key: InstanceKeyModel,
) -> Option<Seq<char>>
    decreases instances.len(),
{
    if instances.len() == 0 {
        None
    } else if instances[0].0 == key {
        Some(instances[0].1)
    } else {
        known_symbol(instances.skip(1), key)
    }
}

/// The symbol of a known instance.
pub fn find_instance<'a>(
    instances: &'a Vec<(InstanceKey, String)>,
    key: &InstanceKey,
) -> (r: Option<&'a String>)
    ensures
        match r {
            Some(name) => known_symbol(instances_view(instances@), key@) == Some(name@),
            None => known_symbol(instances_view(instances@), key@) is None,
        },
{
    let ghost model = instances_view(instances@);
    assert(model.skip(0) =~= model);
    for i in 0..instances.len()
        invariant
            model == instances_view(instances@),
            known_symbol(model, key@) == known_symbol(model.skip(i as int), key@),
    {
        assert(model.skip(i as int)[0] == (instances@[i as int].0@, instances@[i as int].1@));
        assert(model.skip(i as int).skip(1) =~= model.skip(i + 1));
        if instances[i].0.same(key) {
            return Some(&instances[i].1);
        }
    }
    None
}

/// Whether an instance has the symbol.
pub open spec fn symbol_taken(instances: Seq<(InstanceKeyModel, Seq<char>)>, name: Seq<char>) -> bool {
    exists|i: int| 0 <= i < instances.len() && (#[trigger] instances[i]).1 == name
}

fn is_symbol_taken(instances: &Vec<(InstanceKey, String)>, name: &String) -> (r: bool)
    ensures
        r == symbol_taken(instances_view(instances@), name@),
{
    let ghost model = instances_view(instances@);
    for i in 0..instances.len()
        invariant
            model == instances_view(instances@),
            forall|j: int| 0 <= j < i ==> (#[trigger] model[j]).1 != name@,
    {
        assert(model[i as int].1 == instances@[i as int].1@);
        if instances[i].1 == *name {
            return true;
        }
    }
    false
}

/// The owner instance that bindings name.
pub open spec fn owner_instance(b: BindingsModel) -> Option<Seq<char>> {
    match b.self_instance {
        Some(pair) => match pair.1 {
            TyModel::Struct(name, _) => Some(name),
            _ => None,
        },
        None => None,
    }
}

fn instance_owner(bindings: &Bindings) -> (r: Option<String>)
    ensures
        opt_string_view(r) == owner_instance(bindings@),
{
    match &bindings.self_instance {
        Some(pair) => match &pair.1 {
            Ty::Struct(name, _) => Some(name.clone()),
            _ => None,
        },
        None => None,
    }
}

/// The symbol of an instance: a method takes the spelling of its concrete owner,
/// and generic arguments are part of the name.
pub open spec fn symbol_for(key: InstanceKeyModel) -> Result<Seq<char>, MonoErrorModel> {
    match key.owner {
        Some(owner) => match retargeted(key.template, owner) {
            None => Err(
                failure_in(
                    key.template,
                    "owner-bound instance `"@ + key.template + "` is not a method symbol"@,
                ),
            ),
            Some(base) => Ok(
                if key.arguments.len() == 0 { base } else { instance_name(base, key.arguments) }
            ),
        },
        None => Ok(
            if key.arguments.len() == 0 { key.template } else { instance_name(key.template, key.arguments) },
        ),
    }
}

fn name_instance(key: &InstanceKey) -> (r: Result<String, MonoError>)
    ensures
        match r {
            Ok(name) => symbol_for(key@) == Ok::<Seq<char>, MonoErrorModel>(name@),
            Err(e) => symbol_for(key@) == Err::<Seq<char>, MonoErrorModel>(e@),
        },
{
    assert(key@.arguments.len() == key.arguments@.len());
    match &key.owner {
        Some(owner) => match retarget_method_symbol(&key.template, owner) {
            None => Err(
                fail_in(
                    &key.template,
                    cat3("owner-bound instance `", &key.template, "` is not a method symbol"),
                ),
            ),
            Some(base) => if key.arguments.len() == 0 {
                Ok(base)
            } else {
                Ok(instance_symbol(&base, &key.arguments))
            },
        },
        None => if key.arguments.len() == 0 {
            Ok(key.template.clone())
        } else {
            Ok(instance_symbol(&key.template, &key.arguments))
        },
    }
}

/// A graph after a step, with what the step gave; or why it failed.
pub type Step<T> = Result<(GraphModel, T), MonoErrorModel>;

/// Asking for an instance. One that is known keeps its symbol; a new one takes a
/// symbol that nothing else has, and waits to be built.
#[verifier::opaque]
pub open spec fn enqueued(
    program: MirProgramModel,
    g: GraphModel,
    template: Seq<char>,
    b: BindingsModel,
    arguments: Seq<InstanceArgModel>,
) -> Step<Seq<char>> {
    let key = InstanceKeyModel { template, arguments, owner: owner_instance(b) };
    match known_symbol(g.instances, key) {
        Some(name) => Ok((g, name)),
        None => match symbol_for(key) {
            Err(e) => Err(e),
            Ok(name) => if (name != template && body_of(program.functions, name) is Some) || symbol_taken(
                g.instances,
                name,
            ) {
                Err(
                    failure_in(
                        template,
                        "concrete instance symbol `"@ + name + "` collides with an existing declaration"@,
                    ),
                )
            } else {
                Ok(
                    (
                        GraphModel {
                            instances: g.instances.push((key, name)),
                            queue: g.queue.push((key, b)),
                            ..g
                        },
                        name,
                    ),
                )
            },
        },
    }
}

/// Whether the outcome of a step that gives a symbol is the specified one.
pub open spec fn names(graph: Graph, r: Result<String, MonoError>, wanted: Step<Seq<char>>) -> bool {
    match r {
        Ok(name) => wanted == Ok::<(GraphModel, Seq<char>), MonoErrorModel>((graph@, name@)),
        Err(e) => wanted == Err::<(GraphModel, Seq<char>), MonoErrorModel>(e@),
    }
}

/// Asks for an instance, and gives its symbol.
pub fn enqueue(
    program: &MirProgram,
    graph: &mut Graph,
    template: &str,
    bindings: Bindings,
    arguments: Vec<InstanceArg>,
) -> (r: Result<String, MonoError>)
    ensures
        names(
            *final(graph),
            r,
            enqueued(program@, old(graph)@, template@, bindings@, instance_args_view(arguments)),
        ),
{
    proof {
        reveal(enqueued);
    }
    let ghost g = graph@;
    let ghost b = bindings@;
    let key: InstanceKey = InstanceKey {
        template: template.to_owned(),
        arguments,
        owner: instance_owner(&bindings),
    };
    if let Some(name) = find_instance(&graph.instances, &key) {
        return Ok(name.clone());
    }
    let name: String = match name_instance(&key) {
        Ok(name) => name,
        Err(e) => return Err(e),
    };
    if (!str_eq(&name, template) && find_body(&program.functions, &name).is_some()) || is_symbol_taken(
        &graph.instances,
        &name,
    ) {
        return Err(
            fail_in(
                template,
                cat3("concrete instance symbol `", &name, "` collides with an existing declaration"),
            ),
        );
    }
    let ghost k = key@;
    graph.instances.push((key.copy(), name.clone()));
    graph.queue.push((key, bindings));
    assert(graph@.instances =~= g.instances.push((k, name@)));
    assert(graph@.queue =~= g.queue.push((k, b)));
    assert(
        graph@ =~= GraphModel { instances: g.instances.push((k, name@)), queue: g.queue.push((k, b)), ..g }
    );
    Ok(name)
}

/// Symbols are never reused: no two entries of a graph's instance list have the
/// same one.
pub open spec fn symbols_unique(g: GraphModel) -> bool {
    forall|i: int, j: int|
        0 <= i < j < g.instances.len() ==> (#[trigger] g.instances[i]).1 != (#[trigger] g.instances[j]).1
}

/// Asking for an instance keeps symbols unique, and keeps every instance that was
/// known under its symbol.
pub proof fn law_enqueue_keeps_symbols(
    program: MirProgramModel,
    g: GraphModel,
    template: Seq<char>,
    b: BindingsModel,
    arguments: Seq<InstanceArgModel>,
)
    requires
        symbols_unique(g),
        enqueued(program, g, template, b, arguments) is Ok,
    ensures
        ({
            let after = enqueued(program, g, template, b, arguments)->Ok_0.0;
            &&& symbols_unique(after)
            &&& g.instances.is_prefix_of(after.instances)
        }),
{
    reveal(enqueued);
    let step = enqueued(program, g, template, b, arguments)->Ok_0;
    if step.0 != g {
        assert(step.0.instances.take(g.instances.len() as int) =~= g.instances);
        assert forall|i: int, j: int| 0 <= i < j < step.0.instances.len() implies (#[trigger] step.0.instances[i]).1 != (
        #[trigger] step.0.instances[j]).1 by {
            assert(step.0.instances[i] == g.instances[i]);
            if j < g.instances.len() {
                assert(step.0.instances[j] == g.instances[j]);
            }
        }
    }
}

proof fn lemma_known_symbol_push(
    instances: Seq<(InstanceKeyModel, Seq<char>)>,
    key: InstanceKeyModel,
    name: Seq<char>,
)
    requires
        known_symbol(instances, key) is None,
    ensures
        known_symbol(instances.push((key, name)), key) == Some(name),
    decreases instances.len(),
{
    let more = instances.push((key, name));
    if instances.len() > 0 {
        assert(more[0] == instances[0]);
        assert(more.skip(1) =~= instances.skip(1).push((key, name)));
        lemma_known_symbol_push(instances.skip(1), key, name);
    }
}

/// Asking twice for the same instance gives the same symbol and queues nothing new.
pub proof fn law_enqueue_twice(
    program: MirProgramModel,
    g: GraphModel,
    template: Seq<char>,
    b: BindingsModel,
    arguments: Seq<InstanceArgModel>,
)
    requires
        enqueued(program, g, template, b, arguments) is Ok,
    ensures
        ({
            let once = enqueued(program, g, template, b, arguments);
            enqueued(program, once->Ok_0.0, template, b, arguments) == once
        }),
{
    reveal(enqueued);
    let key = InstanceKeyModel { template, arguments, owner: owner_instance(b) };
    let step = enqueued(program, g, template, b, arguments)->Ok_0;
    if known_symbol(g.instances, key) is None {
        lemma_known_symbol_push(g.instances, key, step.1);
    }
}

} // verus!
