//! What an instance of a struct promises: the fields of its template, with the arguments
//! that it is applied to.

use crate::mir::{MirProgramModel, MirStructDeclarationModel};
use crate::native::mono::MonoErrorModel;
use crate::native::mono::bindings::BindingsModel;
use crate::native::mono::call_laws::law_application_binds;
use crate::native::mono::discover::{
    declared_struct, descriptor_declaration, field_results, instance_bound, instance_declared,
    instance_discovered, is_candidate, is_descriptor, type_discovered,
};
use crate::native::mono::instances::GraphModel;
use crate::native::mono::laws::{concrete, stripped};
use crate::native::mono::subst::subst_ty;
use crate::native::mono::unify::equivalent_fields;
use crate::outcome::collect;
use crate::symbol::{retargeted, template_of};
use crate::types::{TyArgModel, TyModel};
use vstd::prelude::*;

verus! {

proof fn lemma_collected_at<T, E>(results: Seq<Result<T, E>>, i: int)
    requires
        collect(results) is Ok,
        0 <= i < results.len(),
    ensures
        results[i] is Ok,
        collect(results)->Ok_0.len() == results.len(),
        collect(results)->Ok_0[i] == results[i]->Ok_0,
    decreases results.len(),
{
    let shorter = results.drop_last();
    assert(collect(shorter) is Ok);
    if shorter.len() > 0 {
        lemma_collected_at(shorter, if i < shorter.len() { i } else { 0 });
    }
}

/// An instance of a struct has the fields of its template, in order and under their
/// names, with their types substituted; it has no parameters left, and its methods are
/// its own.
pub proof fn law_struct_instance(template: MirStructDeclarationModel, name: Seq<char>, b: BindingsModel, i: int)
    requires
        instance_declared(template, name, b) is Ok,
    ensures
        ({
            let d = instance_declared(template, name, b)->Ok_0;
            &&& d.name == name
            &&& d.param_decls.len() == 0
            &&& d.fieldwise_init == template.fieldwise_init
            &&& 0 <= i < template.fields.len() ==> d.fields.len() == template.fields.len() && d.fields[i].0
                == template.fields[i].0 && subst_ty(template.fields[i].1, b) == Ok::<TyModel, MonoErrorModel>(
                d.fields[i].1,
            )
            &&& d.mut_self_methods.len() == template.mut_self_methods.len()
            &&& 0 <= i < template.mut_self_methods.len() && retargeted(template.mut_self_methods[i], name) is Some
                ==> d.mut_self_methods[i] == retargeted(template.mut_self_methods[i], name)->Some_0
        }),
{
    reveal(instance_declared);
    if 0 <= i < template.fields.len() {
        lemma_collected_at(field_results(template.fields, b), i);
    }
}

/// The parameters of a struct are bound to the arguments of its application; inside an
/// instance its bare template name stands for that instance.
pub proof fn law_struct_arguments(
    program: MirProgramModel,
    owner: Seq<char>,
    template: MirStructDeclarationModel,
    name: Seq<char>,
    arguments: Seq<TyArgModel>,
    i: int,
)
    requires
        instance_bound(program, owner, template, name, arguments) is Ok,
    ensures
        ({
            let b = instance_bound(program, owner, template, name, arguments)->Ok_0;
            &&& template_of(name) != name ==> b.self_instance == Some(
                (template_of(name), TyModel::Struct(name, arguments)),
            )
            &&& 0 <= i < template.param_decls.len() && i < arguments.len() && template.param_decls[i] is Type
                && arguments[i] is Ty && concrete(arguments[i]->Ty_0) ==> b.types.dom().contains(
                template.param_decls[i]->Type_name,
            ) && stripped(b.types[template.param_decls[i]->Type_name]) == stripped(arguments[i]->Ty_0)
            &&& 0 <= i < template.param_decls.len() && i < arguments.len() && template.param_decls[i] is Value
                && arguments[i] is Val ==> b.values.dom().contains(template.param_decls[i]->Value_name)
                && b.values[template.param_decls[i]->Value_name] == arguments[i]->Val_0
        }),
{
    reveal(instance_bound);
    let start = crate::native::mono::infer::fresh_bindings(program);
    if 0 <= i < template.param_decls.len() && i < arguments.len() {
        law_application_binds(template.param_decls, arguments, start, i);
    }
}

/// A struct that is on record is found by its name, the first one where there are several.
pub proof fn law_recorded_struct(structs: Seq<MirStructDeclarationModel>, name: Seq<char>)
    ensures
        declared_struct(structs, name) matches Some(d) ==> d.name == name && structs.contains(d),
        declared_struct(structs, name) is None ==> forall|i: int|
            0 <= i < structs.len() ==> (#[trigger] structs[i]).name != name,
    decreases structs.len(),
{
    if structs.len() > 0 {
        let rest = structs.skip(1);
        law_recorded_struct(rest, name);
        assert forall|i: int| 0 <= i < rest.len() implies rest[i] == structs[i + 1] by {}
        if structs[0].name == name {
            assert(structs.contains(structs[0]));
        } else if let Some(d) = declared_struct(rest, name) {
            let i = choose|i: int| 0 <= i < rest.len() && rest[i] == d;
            assert(structs[i + 1] == d);
        } else {
            assert forall|i: int| 0 <= i < structs.len() implies (#[trigger] structs[i]).name != name by {
                if i > 0 {
                    assert(rest[i - 1].name != name);
                }
            }
        }
    }
}

/// An instance that is on record is not recorded again, and has to have the same fields;
/// otherwise the types of its fields are discovered next.
pub proof fn law_instance_discovered(
    program: MirProgramModel,
    g: GraphModel,
    owner: Seq<char>,
    template: MirStructDeclarationModel,
    name: Seq<char>,
    arguments: Seq<TyArgModel>,
)
    requires
        instance_discovered(program, g, owner, template, name, arguments) is Ok,
    ensures
        ({
            let (after, found) = instance_discovered(program, g, owner, template, name, arguments)->Ok_0;
            let b = instance_bound(program, owner, template, name, arguments);
            let d = instance_declared(template, name, b->Ok_0);
            &&& b is Ok && d is Ok
            &&& declared_struct(g.structs, name) is Some ==> after == g && found.len() == 0 && equivalent_fields(
                declared_struct(g.structs, name)->Some_0.fields,
                d->Ok_0.fields,
            )
            &&& declared_struct(g.structs, name) is None ==> found.len() == d->Ok_0.fields.len() && forall|i: int|
                0 <= i < found.len() ==> #[trigger] found[i] == d->Ok_0.fields[i].1
        }),
{
    reveal(instance_discovered);
}

/// Only structs lead to instances: of a template with all its arguments, or one of the
/// descriptors of slices, which hold four numbers.
pub proof fn law_discovered_types(
    program: MirProgramModel,
    g: GraphModel,
    owner: Seq<char>,
    ty: TyModel,
    i: int,
)
    ensures
        !(ty is Struct) ==> type_discovered(program, g, owner, ty) == Ok::<(GraphModel, Seq<TyModel>), MonoErrorModel>(
            (g, Seq::empty()),
        ),
        ty is Struct && is_descriptor(ty->Struct_0) && declared_struct(g.structs, ty->Struct_0) is None
            ==> (type_discovered(
            program,
            g,
            owner,
            ty,
        ) matches Ok((after, found)) && found.len() == 0 && after.structs == g.structs.push(
            descriptor_declaration(ty->Struct_0),
        )),
        descriptor_declaration(owner).fields.len() == 4,
        0 <= i < 4 ==> descriptor_declaration(owner).fields[i].1 is Int,
        descriptor_declaration(owner).name == owner,
        is_candidate(owner, owner),
{
    reveal(type_discovered);
}

} // verus!
