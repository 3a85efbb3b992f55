//! The struct instances that a body needs.

use crate::data::strings_view;
use crate::debug::{debug_string_tys, string_tys_debug};
use crate::mir::{
    MirFunction, MirFunctionModel, MirProgram, MirProgramModel, MirStructDeclaration,
    MirStructDeclarationModel, string_functions_view, struct_declarations_view,
};
use crate::native::mono::{MonoError, MonoErrorModel};
use crate::native::mono::bindings::{Bindings, BindingsModel};
use crate::native::mono::facts::{covered_prefix, declared_arguments, ordered_arguments, owner_covered_prefix};
use crate::native::mono::function::{
    carried_types, collect_nested_types, function_types, named_tys_blocks, nested_types,
    push_instruction_types,
};
use crate::native::mono::infer::{
    base_bindings, drop_first, fail_in, failure_in, fresh_bindings, open_pack, open_pack_of,
    without_first,
};
use crate::native::mono::instances::{Graph, GraphModel, Step, enqueue, enqueued};
use crate::native::mono::requests::{quiet, stepped};
use crate::native::mono::rules::{facts_of, find_facts, find_struct, struct_template};
use crate::native::mono::subst::{subst_ty, substitute_ty};
use crate::native::mono::unify::{bind_args, bind_ty_args, equivalent_fields, fields_equivalent};
use crate::outcome::{collect, lemma_collect_err, lemma_collect_ok};
use crate::symbol::{
    InstanceArg, is_overload_of, is_stdlib_string_struct, is_string_struct, nominal_template,
    overload_of, retarget_method_symbol, retargeted, template_of,
};
use crate::text::{cat3, cat4, cat6, str_eq};
use crate::types::{
    ParamDecl, Ty, TyArg, TyArgModel, TyModel, copy_ty_args, param_decls_view, string_tys_view,
    ty_args_view, tys_view,
};
use vstd::prelude::*;

verus! {

/// The declaration of a slice descriptor: three bounds and a presence mask.
pub open spec fn descriptor_declaration(name: Seq<char>) -> MirStructDeclarationModel {
    MirStructDeclarationModel {
        name,
        fields: seq![
            ("start"@, TyModel::Int),
            ("end"@, TyModel::Int),
            ("step"@, TyModel::Int),
            ("flags"@, TyModel::Int),
        ],
        param_decls: Seq::empty(),
        fieldwise_init: false,
        mut_self_methods: Seq::empty(),
        explicit_destroy_message: None,
        explicit_destructors: Seq::empty(),
    }
}

fn declare_descriptor(name: &String) -> (r: MirStructDeclaration)
    ensures
        r@ == descriptor_declaration(name@),
{
    let mut fields: Vec<(String, Ty)> = Vec::new();
    fields.push(("start".to_owned(), Ty::Int));
    fields.push(("end".to_owned(), Ty::Int));
    fields.push(("step".to_owned(), Ty::Int));
    fields.push(("flags".to_owned(), Ty::Int));
    assert(string_tys_view(fields) =~= descriptor_declaration(name@).fields);
    let decls: Vec<ParamDecl> = Vec::new();
    let methods: Vec<String> = Vec::new();
    let destructors: Vec<String> = Vec::new();
    assert(param_decls_view(decls) =~= Seq::empty());
    assert(strings_view(methods) =~= Seq::empty());
    assert(strings_view(destructors) =~= Seq::empty());
    let r: MirStructDeclaration = MirStructDeclaration {
        name: name.clone(),
        fields,
        param_decls: decls,
        fieldwise_init: false,
        mut_self_methods: methods,
        explicit_destroy_message: None,
        explicit_destructors: destructors,
    };
    assert(r@ =~= descriptor_declaration(name@));
    r
}

/// Whether a name is that of a slice descriptor.
pub open spec fn is_descriptor(name: Seq<char>) -> bool {
    name == "Slice"@ || name == "ContiguousSlice"@ || name == "StridedSlice"@
}

fn names_descriptor(name: &str) -> (r: bool)
    ensures
        r == is_descriptor(name@),
{
    str_eq(name, "Slice") || str_eq(name, "ContiguousSlice") || str_eq(name, "StridedSlice")
}

/// The first struct with the name.
pub open spec fn declared_struct(structs: Seq<MirStructDeclarationModel>, name: Seq<char>) -> Option<
    MirStructDeclarationModel,
>
    decreases structs.len(),
{
    if structs.len() == 0 {
        None
    } else if structs[0].name == name {
        Some(structs[0])
    } else {
        declared_struct(structs.skip(1), name)
    }
}

fn find_declared<'a>(
    structs: &'a Vec<MirStructDeclaration>,
    name: &str,
) -> (r: Option<&'a MirStructDeclaration>)
    ensures
        match r {
            Some(d) => declared_struct(struct_declarations_view(*structs), name@) == Some(d@),
            None => declared_struct(struct_declarations_view(*structs), name@) is None,
        },
{
    let ghost model = struct_declarations_view(*structs);
    assert(model.skip(0) =~= model);
    for i in 0..structs.len()
        invariant
            model == struct_declarations_view(*structs),
            declared_struct(model, name@) == declared_struct(model.skip(i as int), name@),
    {
        assert(model.skip(i as int)[0] == structs@[i as int]@);
        assert(model.skip(i as int).skip(1) =~= model.skip(i + 1));
        if str_eq(&structs[i].name, name) {
            return Some(&structs[i]);
        }
    }
    None
}

/// A graph with one more struct.
pub open spec fn with_struct(g: GraphModel, declaration: MirStructDeclarationModel) -> GraphModel {
    GraphModel { structs: g.structs.push(declaration), ..g }
}

fn push_struct(graph: &mut Graph, declaration: MirStructDeclaration)
    ensures
        final(graph)@ == with_struct(old(graph)@, declaration@),
{
    let ghost g = graph@;
    let ghost d = declaration@;
    graph.structs.push(declaration);
    assert(graph@.structs =~= g.structs.push(d));
    assert(graph@ =~= with_struct(g, d));
}

/// What the fields of a struct become.
pub open spec fn field_results(fields: Seq<(Seq<char>, TyModel)>, b: BindingsModel) -> Seq<
    Result<(Seq<char>, TyModel), MonoErrorModel>,
> {
    Seq::new(
        fields.len(),
        |i: int|
            match subst_ty(fields[i].1, b) {
                Ok(ty) => Ok((fields[i].0, ty)),
                Err(e) => Err(e),
            },
    )
}

fn substitute_fields(
    fields: &Vec<(String, Ty)>,
    bindings: &Bindings,
) -> (r: Result<Vec<(String, Ty)>, MonoError>)
    ensures
        ({
            let wanted = collect(field_results(string_tys_view(*fields), bindings@));
            match r {
                Ok(v) => wanted == Ok::<Seq<(Seq<char>, TyModel)>, MonoErrorModel>(string_tys_view(v)),
                Err(e) => wanted == Err::<Seq<(Seq<char>, TyModel)>, MonoErrorModel>(e@),
            }
        }),
{
    let ghost model = string_tys_view(*fields);
    let ghost results = field_results(model, bindings@);
    let mut out: Vec<(String, Ty)> = Vec::new();
    for i in 0..fields.len()
        invariant
            model == string_tys_view(*fields),
            results == field_results(model, bindings@),
            out@.len() == i,
            forall|j: int| 0 <= j < i ==> #[trigger] results[j] == Ok::<(Seq<char>, TyModel), MonoErrorModel>(
                string_tys_view(out)[j],
            ),
    {
        assert(model[i as int] == (fields@[i as int].0@, fields@[i as int].1@));
        match substitute_ty(&fields[i].1, bindings) {
            Ok(ty) => {
                let ghost before = out;
                out.push((fields[i].0.clone(), ty));
                assert(string_tys_view(out)[i as int] == (fields@[i as int].0@, ty@));
                assert forall|j: int| 0 <= j < i + 1 implies #[trigger] results[j] == Ok::<
                    (Seq<char>, TyModel),
                    MonoErrorModel,
                >(string_tys_view(out)[j]) by {
                    if j < i {
                        assert(string_tys_view(before)[j] == string_tys_view(out)[j]);
                    }
                }
            },
            Err(e) => {
                assert(results[i as int] == Err::<(Seq<char>, TyModel), MonoErrorModel>(e@));
                proof {
                    lemma_collect_err(results, i as int, e@);
                }
                return Err(e);
            },
        }
    }
    proof {
        lemma_collect_ok(results, string_tys_view(out));
    }
    Ok(out)
}

/// The methods that write their receiver, under the instance's name where they are
/// spelled with their owner.
pub open spec fn respelled_methods(methods: Seq<Seq<char>>, owner: Seq<char>) -> Seq<Seq<char>> {
    Seq::new(
        methods.len(),
        |i: int|
            match retargeted(methods[i], owner) {
                Some(symbol) => symbol,
                None => methods[i],
            },
    )
}

fn respell_methods(methods: &Vec<String>, owner: &str) -> (r: Vec<String>)
    ensures
        strings_view(r) == respelled_methods(strings_view(*methods), owner@),
{
    let ghost model = strings_view(*methods);
    let mut out: Vec<String> = Vec::new();
    for i in 0..methods.len()
        invariant
            model == strings_view(*methods),
            out@.len() == i,
            forall|j: int| 0 <= j < i ==> #[trigger] strings_view(out)[j] == respelled_methods(model, owner@)[j],
    {
        assert(model[i as int] == methods@[i as int]@);
        let ghost before = out;
        match retarget_method_symbol(&methods[i], owner) {
            Some(symbol) => out.push(symbol),
            None => out.push(methods[i].clone()),
        }
        assert forall|j: int| 0 <= j < i + 1 implies #[trigger] strings_view(out)[j] == respelled_methods(
            model,
            owner@,
        )[j] by {
            if j < i {
                assert(strings_view(before)[j] == strings_view(out)[j]);
            }
        }
    }
    assert(strings_view(out) =~= respelled_methods(model, owner@));
    out
}

/// The bindings of a struct instance.
#[verifier::opaque]
pub open spec fn instance_bound(
    program: MirProgramModel,
    owner: Seq<char>,
    template: MirStructDeclarationModel,
    name: Seq<char>,
    arguments: Seq<TyArgModel>,
) -> Result<BindingsModel, MonoErrorModel> {
    let s = bind_args(template.param_decls, arguments, fresh_bindings(program));
    match s.error {
        Some(e) => Err(failure_in(owner, "monomorphizing struct `"@ + template_of(name) + "`: "@ + e)),
        None => Ok(
            if name != template_of(name) {
                BindingsModel {
                    self_instance: Some((template_of(name), TyModel::Struct(name, arguments))),
                    ..s.bindings
                }
            } else {
                s.bindings
            },
        ),
    }
}

fn bind_instance(
    program: &MirProgram,
    owner: &str,
    template: &MirStructDeclaration,
    name: &String,
    arguments: &Vec<TyArg>,
) -> (r: Result<Bindings, MonoError>)
    ensures
        match r {
            Ok(b) => instance_bound(program@, owner@, template@, name@, ty_args_view(*arguments)) == Ok::<
                BindingsModel,
                MonoErrorModel,
            >(b@),
            Err(e) => instance_bound(program@, owner@, template@, name@, ty_args_view(*arguments)) == Err::<
                BindingsModel,
                MonoErrorModel,
            >(e@),
        },
{
    proof {
        reveal(instance_bound);
    }
    let mut bindings: Bindings = base_bindings(program);
    if let Err(e) = bind_ty_args(&template.param_decls, arguments, &mut bindings) {
        return Err(fail_in(owner, cat4("monomorphizing struct `", nominal_template(name), "`: ", &e)));
    }
    if !str_eq(name, nominal_template(name)) {
        bindings.self_instance = Some(
            (nominal_template(name).to_owned(), Ty::Struct(name.clone(), copy_ty_args(arguments))),
        );
    }
    Ok(bindings)
}

/// The concrete declaration of a struct instance.
#[verifier::opaque]
pub open spec fn instance_declared(
    template: MirStructDeclarationModel,
    name: Seq<char>,
    b: BindingsModel,
) -> Result<
    MirStructDeclarationModel,
    MonoErrorModel,
> {
    match collect(field_results(template.fields, b)) {
        Err(e) => Err(e),
        Ok(fields) => Ok(
            MirStructDeclarationModel {
                name,
                fields,
                param_decls: Seq::empty(),
                mut_self_methods: respelled_methods(template.mut_self_methods, name),
                ..template
            },
        ),
    }
}

fn declare_instance(template: &MirStructDeclaration, name: &String, bindings: &Bindings) -> (r: Result<
    MirStructDeclaration,
    MonoError,
>)
    ensures
        match r {
            Ok(d) => instance_declared(template@, name@, bindings@) == Ok::<MirStructDeclarationModel, MonoErrorModel>(d@),
            Err(e) => instance_declared(template@, name@, bindings@) == Err::<MirStructDeclarationModel, MonoErrorModel>(
                e@,
            ),
        },
{
    proof {
        reveal(instance_declared);
    }
    let fields: Vec<(String, Ty)> = match substitute_fields(&template.fields, bindings) {
        Ok(fields) => fields,
        Err(e) => return Err(e),
    };
    let mut d: MirStructDeclaration = template.copy();
    d.name = name.clone();
    d.fields = fields;
    d.param_decls = Vec::new();
    assert(param_decls_view(d.param_decls) =~= Seq::empty());
    d.mut_self_methods = respell_methods(&template.mut_self_methods, name);
    assert(d@ =~= MirStructDeclarationModel {
        name: name@,
        fields: string_tys_view(fields),
        param_decls: Seq::empty(),
        mut_self_methods: respelled_methods(template@.mut_self_methods, name@),
        ..template@
    });
    Ok(d)
}

/// The failure of two instances that share a name and differ in more than pointers.
pub open spec fn conflicting_instance(
    owner: Seq<char>,
    existing: MirStructDeclarationModel,
    declaration: MirStructDeclarationModel,
) -> MonoErrorModel {
    failure_in(
        owner,
        "struct instance `"@ + declaration.name
            + "` has conflicting field substitutions (instance identity collision): "@ + string_tys_debug(existing.fields)
            + " versus "@ + string_tys_debug(declaration.fields),
    )
}

fn conflict(
    owner: &str,
    existing: &MirStructDeclaration,
    declaration: &MirStructDeclaration,
) -> (r: MonoError)
    ensures
        r@ == conflicting_instance(owner@, existing@, declaration@),
{
    fail_in(
        owner,
        cat6(
            "struct instance `",
            &declaration.name,
            "` has conflicting field substitutions (instance identity collision): ",
            &debug_string_tys(&existing.fields),
            " versus ",
            &debug_string_tys(&declaration.fields),
        ),
    )
}

/// Asking for one lifecycle method of a struct instance. An open variadic one needs
/// the arity of a call, and one whose parameters are not all solved is left to its
/// callers.
#[verifier::opaque]
pub open spec fn lifecycle_candidate(
    program: MirProgramModel,
    g: GraphModel,
    template: MirStructDeclarationModel,
    b: BindingsModel,
    candidate: Seq<char>,
) -> Step<()> {
    match facts_of(program.declarations.functions, candidate) {
        None => Ok((g, ())),
        Some(declaration) => if open_pack(declaration) is Some {
            Ok((g, ()))
        } else {
            match declared_arguments(declaration.param_decls, b, candidate) {
                Err(_) => Ok((g, ())),
                Ok(args) => quiet(
                    enqueued(
                        program,
                        g,
                        candidate,
                        b,
                        if b.self_instance is Some {
                            without_first(args, covered_prefix(template.param_decls, declaration.param_decls))
                        } else {
                            args
                        },
                    ),
                ),
            }
        },
    }
}

fn request_candidate(
    program: &MirProgram,
    graph: &mut Graph,
    owner: &str,
    template: &MirStructDeclaration,
    name: &String,
    arguments: &Vec<TyArg>,
    candidate: &String,
    Ghost(b): Ghost<BindingsModel>,
) -> (r: Result<(), MonoError>)
    requires
        instance_bound(program@, owner@, template@, name@, ty_args_view(*arguments)) == Ok::<
            BindingsModel,
            MonoErrorModel,
        >(b),
    ensures
        stepped(*final(graph), r, lifecycle_candidate(program@, old(graph)@, template@, b, candidate@)),
{
    proof {
        reveal(lifecycle_candidate);
    }
    let bindings: Bindings = match bind_instance(program, owner, template, name, arguments) {
        Ok(bindings) => bindings,
        Err(e) => return Err(e),
    };
    if let Some(declaration) = find_facts(&program.declarations.functions, candidate) {
        if open_pack_of(declaration).is_none() {
            if let Ok(args) = ordered_arguments(&declaration.param_decls, &bindings, candidate) {
                let own: Vec<InstanceArg> = if bindings.self_instance.is_some() {
                    drop_first(&args, owner_covered_prefix(&template.param_decls, &declaration.param_decls))
                } else {
                    args
                };
                if let Err(e) = enqueue(program, graph, candidate, bindings, own) {
                    return Err(e);
                }
            }
        }
    }
    Ok(())
}

/// Whether a symbol is the named method or one of its overloads.
pub open spec fn is_candidate(symbol: Seq<char>, base: Seq<char>) -> bool {
    symbol == base || overload_of(symbol, base)
}

/// Asking for a lifecycle method and its overloads, among the first `n` functions of
/// the program.
pub open spec fn lifecycle_candidates(
    program: MirProgramModel,
    g: GraphModel,
    template: MirStructDeclarationModel,
    b: BindingsModel,
    base: Seq<char>,
    n: nat,
) -> Step<()>
    decreases n,
{
    if n == 0 {
        Ok((g, ()))
    } else {
        match lifecycle_candidates(program, g, template, b, base, (n - 1) as nat) {
            Err(e) => Err(e),
            Ok(s) => if is_candidate(program.functions[n - 1].0, base) {
                lifecycle_candidate(program, s.0, template, b, program.functions[n - 1].0)
            } else {
                Ok(s)
            },
        }
    }
}

proof fn lemma_candidates_error(
    program: MirProgramModel,
    g: GraphModel,
    template: MirStructDeclarationModel,
    b: BindingsModel,
    base: Seq<char>,
    n: nat,
    m: nat,
)
    requires
        n <= m,
        lifecycle_candidates(program, g, template, b, base, n) is Err,
    ensures
        lifecycle_candidates(
            program,
            g,
            template,
            b,
            base,
            m,
        ) == lifecycle_candidates(program, g, template, b, base, n),
    decreases m,
{
    if n < m {
        lemma_candidates_error(program, g, template, b, base, n, (m - 1) as nat);
    }
}

fn request_candidates(
    program: &MirProgram,
    graph: &mut Graph,
    owner: &str,
    template: &MirStructDeclaration,
    name: &String,
    arguments: &Vec<TyArg>,
    base: &str,
    Ghost(b): Ghost<BindingsModel>,
) -> (r: Result<(), MonoError>)
    requires
        instance_bound(program@, owner@, template@, name@, ty_args_view(*arguments)) == Ok::<
            BindingsModel,
            MonoErrorModel,
        >(b),
    ensures
        stepped(
            *final(graph),
            r,
            lifecycle_candidates(program@, old(graph)@, template@, b, base@, program@.functions.len()),
        ),
{
    let ghost g = graph@;
    let ghost model = string_functions_view(program.functions);
    assert(program@.functions == model);
    assert(model.len() == program.functions@.len());
    for i in 0..program.functions.len()
        invariant
            g == old(graph)@,
            program@.functions == model,
            model == string_functions_view(program.functions),
            model.len() == program.functions@.len(),
            instance_bound(program@, owner@, template@, name@, ty_args_view(*arguments)) == Ok::<
                BindingsModel,
                MonoErrorModel,
            >(b),
            lifecycle_candidates(program@, g, template@, b, base@, i as nat) == Ok::<(GraphModel, ()), MonoErrorModel>(
                (graph@, ()),
            ),
    {
        let candidate: &String = &program.functions[i].0;
        assert(model[i as int].0 == candidate@);
        if str_eq(candidate, base) || is_overload_of(candidate, base) {
            if let Err(e) = request_candidate(
                program,
                graph,
                owner,
                template,
                name,
                arguments,
                candidate,
                Ghost(b),
            ) {
                proof {
                    assert(lifecycle_candidates(program@, g, template@, b, base@, (i + 1) as nat) == Err::<
                        (GraphModel, ()),
                        MonoErrorModel,
                    >(e@));
                    lemma_candidates_error(program@, g, template@, b, base@, (i + 1) as nat, model.len());
                }
                return Err(e);
            }
        }
        assert(lifecycle_candidates(program@, g, template@, b, base@, (i + 1) as nat) == Ok::<(GraphModel, ()), MonoErrorModel>(
            (graph@, ()),
        ));
    }
    Ok(())
}

/// The lifecycle methods, in the order they are asked for.
pub open spec fn lifecycle_method(k: nat) -> Seq<char> {
    if k == 0 {
        "__init__"@
    } else if k == 1 {
        "__copyinit__"@
    } else if k == 2 {
        "__moveinit__"@
    } else {
        "__deinit__"@
    }
}

fn method_of_lifecycle(k: usize) -> (r: &'static str)
    ensures
        r@ == lifecycle_method(k as nat),
{
    if k == 0 {
        "__init__"
    } else if k == 1 {
        "__copyinit__"
    } else if k == 2 {
        "__moveinit__"
    } else {
        "__deinit__"
    }
}

/// Asking for the first `k` lifecycle methods of a struct instance. The string
/// struct is copied by the runtime.
pub open spec fn lifecycle_requested(
    program: MirProgramModel,
    g: GraphModel,
    template: MirStructDeclarationModel,
    b: BindingsModel,
    template_name: Seq<char>,
    k: nat,
) -> Step<()>
    decreases k,
{
    if k == 0 {
        Ok((g, ()))
    } else {
        match lifecycle_requested(program, g, template, b, template_name, (k - 1) as nat) {
            Err(e) => Err(e),
            Ok(s) => if k == 2 && is_string_struct(template_name) {
                Ok(s)
            } else {
                lifecycle_candidates(
                    program,
                    s.0,
                    template,
                    b,
                    template_name + "."@ + lifecycle_method((k - 1) as nat),
                    program.functions.len(),
                )
            },
        }
    }
}

proof fn lemma_lifecycle_error(
    program: MirProgramModel,
    g: GraphModel,
    template: MirStructDeclarationModel,
    b: BindingsModel,
    template_name: Seq<char>,
    n: nat,
    m: nat,
)
    requires
        n <= m,
        lifecycle_requested(program, g, template, b, template_name, n) is Err,
    ensures
        lifecycle_requested(program, g, template, b, template_name, m) == lifecycle_requested(
            program,
            g,
            template,
            b,
            template_name,
            n,
        ),
    decreases m,
{
    if n < m {
        lemma_lifecycle_error(program, g, template, b, template_name, n, (m - 1) as nat);
    }
}

fn request_lifecycle(
    program: &MirProgram,
    graph: &mut Graph,
    owner: &str,
    template: &MirStructDeclaration,
    name: &String,
    arguments: &Vec<TyArg>,
    template_name: &str,
    Ghost(b): Ghost<BindingsModel>,
) -> (r: Result<(), MonoError>)
    requires
        instance_bound(program@, owner@, template@, name@, ty_args_view(*arguments)) == Ok::<
            BindingsModel,
            MonoErrorModel,
        >(b),
    ensures
        stepped(
            *final(graph),
            r,
            lifecycle_requested(program@, old(graph)@, template@, b, template_name@, 4),
        ),
{
    let ghost g = graph@;
    let mut k: usize = 0;
    while k < 4
        invariant
            k <= 4,
            g == old(graph)@,
            instance_bound(program@, owner@, template@, name@, ty_args_view(*arguments)) == Ok::<
                BindingsModel,
                MonoErrorModel,
            >(b),
            lifecycle_requested(program@, g, template@, b, template_name@, k as nat) == Ok::<(GraphModel, ()), MonoErrorModel>(
                (graph@, ()),
            ),
        decreases 4 - k,
    {
        if !(k == 1 && is_stdlib_string_struct(template_name)) {
            let base: String = cat3(template_name, ".", method_of_lifecycle(k));
            if let Err(e) = request_candidates(
                program,
                graph,
                owner,
                template,
                name,
                arguments,
                &base,
                Ghost(b),
            ) {
                proof {
                    assert(lifecycle_requested(program@, g, template@, b, template_name@, (k + 1) as nat) == Err::<
                        (GraphModel, ()),
                        MonoErrorModel,
                    >(e@));
                    lemma_lifecycle_error(program@, g, template@, b, template_name@, (k + 1) as nat, 4);
                }
                return Err(e);
            }
        }
        k = k + 1;
    }
    Ok(())
}

/// The types of fields.
pub open spec fn field_tys(fields: Seq<(Seq<char>, TyModel)>) -> Seq<TyModel> {
    Seq::new(fields.len(), |i: int| fields[i].1)
}

fn types_of_fields(fields: &Vec<(String, Ty)>) -> (r: Vec<Ty>)
    ensures
        tys_view(r) == field_tys(string_tys_view(*fields)),
{
    let ghost model = string_tys_view(*fields);
    let mut out: Vec<Ty> = Vec::new();
    for i in 0..fields.len()
        invariant
            model == string_tys_view(*fields),
            out@.len() == i,
            forall|j: int| 0 <= j < i ==> #[trigger] tys_view(out)[j] == model[j].1,
    {
        assert(model[i as int] == (fields@[i as int].0@, fields@[i as int].1@));
        let ghost before = out;
        out.push(fields[i].1.copy());
        assert forall|j: int| 0 <= j < i + 1 implies #[trigger] tys_view(out)[j] == model[j].1 by {
            if j < i {
                assert(tys_view(before)[j] == tys_view(out)[j]);
            }
        }
    }
    assert(tys_view(out) =~= field_tys(model));
    out
}

/// Declaring a struct instance: a new one is recorded with its lifecycle methods and
/// gives its field types; one that is known has to have equivalent fields.
#[verifier::opaque]
pub open spec fn instance_discovered(
    program: MirProgramModel,
    g: GraphModel,
    owner: Seq<char>,
    template: MirStructDeclarationModel,
    name: Seq<char>,
    arguments: Seq<TyArgModel>,
) -> Step<Seq<TyModel>> {
    match instance_bound(program, owner, template, name, arguments) {
        Err(e) => Err(e),
        Ok(b) => match instance_declared(template, name, b) {
            Err(e) => Err(e),
            Ok(declaration) => match declared_struct(g.structs, name) {
                Some(existing) => if equivalent_fields(existing.fields, declaration.fields) {
                    Ok((g, Seq::empty()))
                } else {
                    Err(conflicting_instance(owner, existing, declaration))
                },
                None => match lifecycle_requested(
                    program,
                    with_struct(g, declaration),
                    template,
                    b,
                    template_of(name),
                    4,
                ) {
                    Err(e) => Err(e),
                    Ok(s) => Ok((s.0, field_tys(declaration.fields))),
                },
            },
        },
    }
}

/// Whether the outcome of a step that gives types is the specified one.
pub open spec fn finds(graph: Graph, r: Result<Vec<Ty>, MonoError>, wanted: Step<Seq<TyModel>>) -> bool {
    match r {
        Ok(v) => wanted == Ok::<(GraphModel, Seq<TyModel>), MonoErrorModel>((graph@, tys_view(v))),
        Err(e) => wanted == Err::<(GraphModel, Seq<TyModel>), MonoErrorModel>(e@),
    }
}

fn no_types() -> (r: Vec<Ty>)
    ensures
        tys_view(r) == Seq::<TyModel>::empty(),
{
    let r: Vec<Ty> = Vec::new();
    assert(tys_view(r) =~= Seq::empty());
    r
}

fn discover_instance(
    program: &MirProgram,
    graph: &mut Graph,
    owner: &str,
    template: &MirStructDeclaration,
    name: &String,
    arguments: &Vec<TyArg>,
) -> (r: Result<Vec<Ty>, MonoError>)
    ensures
        finds(
            *final(graph),
            r,
            instance_discovered(program@, old(graph)@, owner@, template@, name@, ty_args_view(*arguments)),
        ),
{
    proof {
        reveal(instance_discovered);
    }
    let bindings: Bindings = match bind_instance(program, owner, template, name, arguments) {
        Ok(b) => b,
        Err(e) => return Err(e),
    };
    let declaration: MirStructDeclaration = match declare_instance(template, name, &bindings) {
        Ok(d) => d,
        Err(e) => return Err(e),
    };
    if let Some(existing) = find_declared(&graph.structs, name) {
        if !fields_equivalent(&existing.fields, &declaration.fields) {
            proof {
                reveal(instance_declared);
            }
            return Err(conflict(owner, existing, &declaration));
        }
        return Ok(no_types());
    }
    let types: Vec<Ty> = types_of_fields(&declaration.fields);
    push_struct(graph, declaration);
    match request_lifecycle(
        program,
        graph,
        owner,
        template,
        name,
        arguments,
        nominal_template(name),
        Ghost(bindings@),
    ) {
        Ok(()) => Ok(types),
        Err(e) => Err(e),
    }
}

/// What one type asks for: slice descriptors have a fixed layout, and a complete
/// application of a struct is an instance.
#[verifier::opaque]
pub open spec fn type_discovered(
    program: MirProgramModel,
    g: GraphModel,
    owner: Seq<char>,
    ty: TyModel,
) -> Step<
    Seq<TyModel>,
> {
    match ty {
        TyModel::Struct(name, arguments) => if is_descriptor(name) {
            if declared_struct(g.structs, name) is Some {
                Ok((g, Seq::empty()))
            } else {
                Ok((with_struct(g, descriptor_declaration(name)), Seq::empty()))
            }
        } else {
            match struct_template(program.declarations.structs, template_of(name)) {
                None => Ok((g, Seq::empty())),
                Some(template) => if arguments.len() < template.param_decls.len() {
                    Ok((g, Seq::empty()))
                } else {
                    instance_discovered(program, g, owner, template, name, arguments)
                },
            }
        },
        _ => Ok((g, Seq::empty())),
    }
}

fn discover_type(
    program: &MirProgram,
    graph: &mut Graph,
    owner: &str,
    ty: &Ty,
) -> (r: Result<Vec<Ty>, MonoError>)
    ensures
        finds(*final(graph), r, type_discovered(program@, old(graph)@, owner@, ty@)),
{
    proof {
        reveal(type_discovered);
    }
    if let Ty::Struct(name, arguments) = ty {
        assert(ty_args_view(*arguments).len() == arguments@.len());
        if names_descriptor(name) {
            if find_declared(&graph.structs, name).is_none() {
                push_struct(graph, declare_descriptor(name));
            }
            return Ok(no_types());
        }
        if let Some(template) = find_struct(&program.declarations.structs, nominal_template(name)) {
            assert(template@.param_decls.len() == template.param_decls@.len());
            if arguments.len() >= template.param_decls.len() {
                return discover_instance(program, graph, owner, template, name, arguments);
            }
        }
    }
    Ok(no_types())
}

/// The walk over types and everything they reach, last first, in at most `budget`
/// steps.
pub open spec fn types_discovered(
    program: MirProgramModel,
    g: GraphModel,
    owner: Seq<char>,
    types: Seq<TyModel>,
    budget: nat,
) -> Step<()>
    decreases budget,
{
    if types.len() == 0 {
        Ok((g, ()))
    } else if budget == 0 {
        Err(failure_in(owner, "struct discovery exceeded its budget"@))
    } else {
        match type_discovered(program, g, owner, types.last()) {
            Err(e) => Err(e),
            Ok(s) => types_discovered(
                program,
                s.0,
                owner,
                types.drop_last() + nested_types(types.last()) + s.1,
                (budget - 1) as nat,
            ),
        }
    }
}

fn push_types(types: &mut Vec<Ty>, more: &Vec<Ty>)
    ensures
        tys_view(*final(types)) == tys_view(*old(types)) + tys_view(*more),
{
    let ghost start = tys_view(*types);
    let ghost model = tys_view(*more);
    assert(start =~= start + model.take(0));
    for i in 0..more.len()
        invariant
            model == tys_view(*more),
            tys_view(*types) == start + model.take(i as int),
    {
        let ghost before = tys_view(*types);
        assert(model[i as int] == more@[i as int]@);
        types.push(more[i].copy());
        assert(tys_view(*types) =~= before.push(model[i as int]));
        assert(model.take(i + 1) =~= model.take(i as int).push(model[i as int]));
        assert(tys_view(*types) =~= start + model.take(i + 1));
    }
    assert(model.take(model.len() as int) =~= model);
}

/// The structs that a body needs: those of the types it carries, and of the element
/// types that its storage instructions name.
#[verifier::opaque]
pub open spec fn structs_discovered(
    program: MirProgramModel,
    g: GraphModel,
    owner: Seq<char>,
    f: MirFunctionModel,
) -> Step<()> {
    types_discovered(program, g, owner, carried_types(f) + named_tys_blocks(f.blocks), u64::MAX as nat)
}

/// Declares the structs that a body needs, and asks for their lifecycle methods.
pub fn discover_structs(program: &MirProgram, graph: &mut Graph, owner: &str, function: &MirFunction) -> (r: Result<
    (),
    MonoError,
>)
    ensures
        stepped(*final(graph), r, structs_discovered(program@, old(graph)@, owner@, function@)),
{
    proof {
        reveal(structs_discovered);
    }
    let mut types: Vec<Ty> = function_types(function);
    push_instruction_types(&function.blocks, &mut types);
    let ghost wanted = types_discovered(program@, graph@, owner@, tys_view(types), u64::MAX as nat);
    let mut budget: u64 = u64::MAX;
    loop
        invariant
            wanted == types_discovered(program@, graph@, owner@, tys_view(types), budget as nat),
            wanted == structs_discovered(program@, old(graph)@, owner@, function@),
        decreases budget,
    {
        assert(tys_view(types).len() == types@.len());
        let ghost model = tys_view(types);
        let ty: Ty = match types.pop() {
            Some(ty) => ty,
            None => return Ok(()),
        };
        assert(model.last() == ty@);
        assert(tys_view(types) =~= model.drop_last());
        if budget == 0 {
            return Err(fail_in(owner, "struct discovery exceeded its budget".to_owned()));
        }
        budget = budget - 1;
        collect_nested_types(&ty, &mut types);
        match discover_type(program, graph, owner, &ty) {
            Ok(more) => push_types(&mut types, &more),
            Err(e) => return Err(e),
        }
    }
}

} // verus!
