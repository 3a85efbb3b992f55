//! What a clean place promises: each step of its path is one that its storage has, and
//! the types along it agree.

use crate::mir::{
    MirDeclarationsModel, MirFunctionDeclarationModel, MirFunctionModel, MirPlaceModel,
    MirStructDeclarationModel, ProjModel, Reg,
};
use crate::mir::verify::{Checker, block_prefix};
use crate::mir::verify::intrinsics::{element_fits, indexed_elements, is_indexer};
use crate::mir::verify::places::{
    field_of, field_step_issues, has_value_param, index_step_issues, is_handle, place_base,
    place_issues, step_issues, steps_issues, struct_of, uninit_element,
};
use crate::mir::verify::types::compat;
use crate::mir::verify::values::reg_found;
use crate::table::table_get;
use crate::types::TyModel;
use vstd::prelude::*;

verus! {

/// A place without issues is rooted in a slot of the function, with the type that the
/// slot is declared with; what it is reached through is a reference; it carries every
/// type along its path, and its own type is that of the last step.
pub proof fn law_clean_place<C: Checker>(
    c: C,
    name: Seq<char>,
    block: nat,
    function: MirFunctionModel,
    declarations: MirDeclarationsModel,
    place: MirPlaceModel,
    executable: bool,
    i: int,
)
    requires
        place_issues(c, name, block, function, declarations, place, executable).len() == 0,
    ensures
        place.root < function.n_vars,
        place.root_ty is Some && place.ty is Some && place.projection_tys.len() == place.proj.len(),
        table_get(function.var_tys, place.root) is Some ==> compat(
            c,
            place.root_ty->Some_0,
            table_get(function.var_tys, place.root)->Some_0,
        ),
        place.through is Some ==> place.through->Some_0 < function.n_vars && is_handle(
            name,
            function,
            declarations.functions,
            place.through->Some_0,
        ),
        place.proj.len() == 0 ==> compat(c, place.ty->Some_0, place_base(place)),
        place.proj.len() > 0 ==> compat(c, place.ty->Some_0, place.projection_tys.last()),
        0 <= i < place.proj.len() ==> step_issues(
            c,
            block_prefix(name, block),
            function,
            declarations,
            executable,
            if i == 0 { place_base(place) } else { place.projection_tys[i - 1] },
            place.proj[i],
            place.projection_tys[i],
        ).len() == 0,
{
    reveal(place_issues);
    if 0 <= i < place.proj.len() {
        lemma_steps_clean(
            c,
            block_prefix(name, block),
            function,
            declarations,
            executable,
            place,
            place.proj.len(),
            i,
        );
    }
}

proof fn lemma_steps_clean<C: Checker>(
    c: C,
    prefix: Seq<char>,
    function: MirFunctionModel,
    declarations: MirDeclarationsModel,
    executable: bool,
    place: MirPlaceModel,
    n: nat,
    i: int,
)
    requires
        steps_issues(c, prefix, function, declarations, executable, place, n).len() == 0,
        0 <= i < n,
    ensures
        step_issues(
            c,
            prefix,
            function,
            declarations,
            executable,
            if i == 0 { place_base(place) } else { place.projection_tys[i - 1] },
            place.proj[i],
            place.projection_tys[i],
        ).len() == 0,
    decreases n,
{
    if i < n - 1 {
        lemma_steps_clean(c, prefix, function, declarations, executable, place, (n - 1) as nat, i);
    }
}

/// A step into storage is clean exactly where the storage has it: a tuple element at a
/// position that is there, an alternative that is there, the payload of storage that may
/// be uninitialized, each with a type that fits.
pub proof fn law_place_steps<C: Checker>(
    c: C,
    prefix: Seq<char>,
    function: MirFunctionModel,
    declarations: MirDeclarationsModel,
    executable: bool,
    current: TyModel,
    index: usize,
    projected: TyModel,
)
    ensures
        step_issues(
            c,
            prefix,
            function,
            declarations,
            executable,
            current,
            ProjModel::ConstIndex(index),
            projected,
        ).len() == 0 <==> current is Tuple && index < current->Tuple_0.len() && compat(
            c,
            projected,
            current->Tuple_0[index as int],
        ),
        current is Variant ==> (step_issues(
            c,
            prefix,
            function,
            declarations,
            executable,
            current,
            ProjModel::Variant(index),
            projected,
        ).len() == 0 <==> index < current->Variant_0.len()),
        step_issues(
            c,
            prefix,
            function,
            declarations,
            executable,
            current,
            ProjModel::UninitPayload,
            projected,
        ).len() == 0 <==> uninit_element(current) is Some && compat(c, projected, uninit_element(current)->Some_0),
{
}

/// A field step is clean exactly where the struct has the field with a type that fits, or
/// a value parameter of that name.
pub proof fn law_field_step<C: Checker>(
    c: C,
    prefix: Seq<char>,
    structs: Seq<MirStructDeclarationModel>,
    owner: Seq<char>,
    field: Seq<char>,
    projected: TyModel,
)
    requires
        struct_of(structs, owner) is Some,
    ensures
        ({
            let current = TyModel::Struct(owner, Seq::empty());
            let found = field_of(struct_of(structs, owner)->Some_0.fields, field);
            &&& found is Some ==> (field_step_issues(c, prefix, structs, current, field, projected).len() == 0 <==> compat(
                c,
                projected,
                found->Some_0,
            ))
            &&& found is None ==> (field_step_issues(c, prefix, structs, current, field, projected).len() == 0
                <==> has_value_param(struct_of(structs, owner)->Some_0.param_decls, field))
            &&& found == Some(projected) ==> field_step_issues(c, prefix, structs, current, field, projected).len() == 0
        }),
{
    reveal(compat);
}

/// An index step is clean exactly where its register is there and an integer, and the
/// storage has elements that the step's type fits; what is no indexed storage may only
/// stand where nothing is executed.
pub proof fn law_index_step<C: Checker>(
    c: C,
    prefix: Seq<char>,
    function: MirFunctionModel,
    executable: bool,
    current: TyModel,
    register: Reg,
    projected: TyModel,
)
    requires
        reg_found(function, register) is Some,
    ensures
        index_step_issues(c, prefix, function, executable, current, register, projected).len() == 0 <==> {
            &&& register.0 < function.n_regs
            &&& is_indexer(c, reg_found(function, register)->Some_0)
            &&& match indexed_elements(c, current) {
                Some(candidates) => element_fits(c, projected, candidates),
                None => !executable,
            }
        },
        current is Tuple ==> indexed_elements(c, current) == Some(current->Tuple_0),
        current is Pointer ==> indexed_elements(c, current) == Some(seq![*current->Pointer_element]),
        current is ComptimeList ==> indexed_elements(c, current) == Some(seq![*current->ComptimeList_0]),
        current is VariadicPack ==> indexed_elements(c, current) == Some(seq![*current->VariadicPack_0]),
{
}

/// A field is found by its name, the first one where there are several; so is a struct.
pub proof fn law_field_of(fields: Seq<(Seq<char>, TyModel)>, name: Seq<char>)
    ensures
        field_of(fields, name) is None <==> forall|i: int| 0 <= i < fields.len() ==> (#[trigger] fields[i]).0 != name,
        forall|i: int|
            0 <= i < fields.len() && (#[trigger] fields[i]).0 == name && (forall|j: int|
                0 <= j < i ==> (#[trigger] fields[j]).0 != name) ==> field_of(fields, name) == Some(fields[i].1),
    decreases fields.len(),
{
    if fields.len() > 0 {
        let rest = fields.skip(1);
        law_field_of(rest, name);
        assert forall|i: int| 0 <= i < rest.len() implies rest[i] == fields[i + 1] by {}
        if fields[0].0 != name {
            if field_of(rest, name) is None {
                assert forall|i: int| 0 <= i < fields.len() implies (#[trigger] fields[i]).0 != name by {
                    if i > 0 {
                        assert(rest[i - 1].0 != name);
                    }
                }
            }
            assert forall|i: int|
                0 <= i < fields.len() && (#[trigger] fields[i]).0 == name && (forall|j: int|
                    0 <= j < i ==> (#[trigger] fields[j]).0 != name) implies field_of(fields, name) == Some(fields[i].1) by {
                assert(i > 0);
                assert forall|j: int| 0 <= j < i - 1 implies (#[trigger] rest[j]).0 != name by {
                    assert(fields[j + 1].0 != name);
                }
                assert(rest[i - 1] == fields[i]);
            }
        }
    }
}

/// What a place is reached through holds a reference: a reference parameter, the
/// receiver of a method that takes its place, or a slot with a reference or a pointer to
/// checked storage.
pub proof fn law_handles(
    name: Seq<char>,
    function: MirFunctionModel,
    functions: Seq<MirFunctionDeclarationModel>,
    slot: u32,
)
    ensures
        slot < function.n_params && slot < function.ref_params.len() && function.ref_params[slot as int] ==> is_handle(
            name,
            function,
            functions,
            slot,
        ),
        table_get(function.var_tys, slot) matches Some(ty) ==> (ty is Ref
            ==> is_handle(name, function, functions, slot)),
        is_handle(name, function, functions, slot) && slot > 0 && !(slot < function.n_params && slot
            < function.ref_params.len() && function.ref_params[slot as int])
                ==> table_get(function.var_tys, slot) is Some && (
        table_get(function.var_tys, slot)->Some_0 is Ref || table_get(function.var_tys, slot)->Some_0 is Pointer),
{
}

} // verus!
