//! What a clean verification promises: each instruction of a body without issues is
//! well typed, and a well-typed instruction has no issue.

use crate::mir::{
    MirBlockModel, MirDeclarationsModel, MirFunctionModel, MirInstrModel, MirPlaceModel,
    MirTermModel, Reg,
};
use crate::mir::verify::{
    Checker, ReferencePermission, RegionContext, block_prefix, declaration_of, grants,
    permission_of,
};
use crate::mir::verify::calls::{
    call_issues, get_iter_issues, index_issues, method_call_issues, multi_index_issues,
    multi_set_issues, next_issues, slice_issues, try_next_issues,
};
use crate::mir::verify::instr::{
    blocks_issues, dispatch_issues, handler_issues, held_issues, instruction_issues,
    instructions_issues, own_issues, places_issues, raise_issues, raising_call, region_issues,
    register_issues, value_issues,
};
use crate::mir::verify::places::{cleanup_issues, places_of, terminator_issues, uninit_element};
use crate::mir::verify::regs::{operand_regs, result_regs};
use crate::mir::verify::subscripts::capability;
use crate::mir::verify::types::{
    abstract_iterator, any_arg_type_param, any_member_compatible, any_runtime_pack, any_type_param,
    compat, compatible, has_runtime_pack, has_type_param, iterator_adapter_issues,
};
use crate::mir::verify::values::{
    bind_issues, construct_param_issues, copy_value_issues, establish_loans_issues,
    invalidate_interiors_issues, make_closure_issues, make_ref_issues, make_variant_issues,
    materialize_issues, pointer_storage_op_issues, read_ref_issues, reg_found, simd_shuffle_issues,
    simd_width_issues, size_of_issues, store_issues, store_ref_issues, uninit_storage_issues,
    uninit_storage_op_issues, write_ref_issues,
};
use crate::origin::{Mutability, PointerOriginModel};
use crate::types::TyModel;
use vstd::prelude::*;

verus! {

/// Whether a type is compared by conversion alone: it mentions no parameter, and is no
/// pointer, struct, callable or overload set.
pub open spec fn compared_by_value(ty: TyModel) -> bool {
    !has_type_param(ty) && !(ty is Pointer || ty is Struct || ty is Func || ty is GenericFunc || ty is Overload)
}

/// What compatibility is: plain types are equal or convert one way or the other; what
/// mentions a parameter is not compared; pointers go by their elements; a bare struct
/// name stands for each of its instantiations, and an overload set for one of its
/// members; callables whose environments do not convert are never compatible.
pub proof fn law_compatible_types<C: Checker>(c: C, found: TyModel, expected: TyModel)
    ensures
        compared_by_value(found) && compared_by_value(expected) ==> (compat(c, found, expected) <==> found
            == expected || c.coerces(found, expected) || c.coerces(expected, found)),
        found is Func && expected is Func && found != expected && !c.environment_coerces(
            found->Func_environment,
            expected->Func_environment,
        ) ==> !compat(c, found, expected),
        found is Func && expected is Func && !has_type_param(found) && !has_type_param(expected) && compat(
            c,
            found,
            expected,
        ) ==> found == expected || c.coerces(found, expected) || c.coerces(expected, found),
        !(found is Func || found is GenericFunc) && (has_type_param(found) || has_type_param(expected)) ==> compat(
            c,
            found,
            expected,
        ),
        found is Pointer && expected is Pointer && compat(
            c,
            *found->Pointer_element,
            *expected->Pointer_element,
        ) ==> compat(c, found, expected),
        found is Pointer && expected is Pointer && compat(c, found, expected) && *found->Pointer_element
            != *expected->Pointer_element ==> has_type_param(found) || has_type_param(expected) || compat(
            c,
            *found->Pointer_element,
            *expected->Pointer_element,
        ),
        found is Struct && expected is Struct && found->Struct_0 == expected->Struct_0 && (found->Struct_1.len() == 0
            || expected->Struct_1.len() == 0) ==> compat(c, found, expected),
        found is Struct && expected is Struct && found->Struct_0 != expected->Struct_0 && !has_type_param(found)
            && !has_type_param(expected) ==> (compat(c, found, expected) <==> c.coerces(found, expected)
            || c.coerces(expected, found)),
        found is Struct && compared_by_value(expected) && !has_type_param(found) ==> (compat(c, found, expected)
            <==> c.coerces(found, expected) || c.coerces(expected, found)),
        found is Overload && compared_by_value(expected) ==> (compat(c, found, expected) <==> exists|i: int|
            0 <= i < found->Overload_0.len() && compat(c, #[trigger] found->Overload_0[i], expected)),
{
    reveal(compat);
    if found is Overload && compared_by_value(expected) {
        let members = found->Overload_0;
        assert(compatible(c, found, expected) == any_member_compatible(c, members, expected));
        if any_member_compatible(c, members, expected) {
            let i = choose|i: int| 0 <= i < members.len() && compatible(c, #[trigger] members[i], expected);
            assert(compat(c, members[i], expected));
        }
    }
}

/// The storage that a value is stored into: behind a reference, its referent.
pub open spec fn storage(ty: TyModel) -> TyModel {
    if ty is Ref { *ty->Ref_0.referent } else { ty }
}

/// A store whose source has the type of the storage has no issue, and one of a type
/// that is not compatible with it has one.
pub proof fn law_store<C: Checker>(c: C, prefix: Seq<char>, place: MirPlaceModel, src: Option<TyModel>)
    ensures
        place.ty is None || src is None ==> store_issues(c, prefix, place, src).len() == 0,
        place.ty is Some && src == Some(storage(place.ty->Some_0)) ==> store_issues(c, prefix, place, src).len() == 0,
        place.ty is Some && src is Some ==> (store_issues(c, prefix, place, src).len() == 0 <==> compat(
            c,
            src->Some_0,
            storage(place.ty->Some_0),
        )),
        store_issues(c, prefix, place, src).len() <= 1,
{
    reveal(store_issues);
    reveal(compat);
}

/// Storing a reference needs storage for references, and a source that is one: with a
/// compatible referent, and a permission that is not less.
pub proof fn law_store_ref<C: Checker>(
    c: C,
    prefix: Seq<char>,
    place: MirPlaceModel,
    reference: Option<TyModel>,
)
    ensures
        place.ty is Some && !(place.ty->Some_0 is Ref) ==> store_ref_issues(c, prefix, place, reference).len() == 1,
        place.ty is Some && place.ty == reference && place.ty->Some_0 is Ref ==> store_ref_issues(
            c,
            prefix,
            place,
            reference,
        ).len() == 0,
        place.ty is Some && place.ty->Some_0 is Ref && reference is Some ==> (store_ref_issues(
            c,
            prefix,
            place,
            reference,
        ).len() == 0 <==> reference->Some_0 is Ref && compat(
            c,
            *reference->Some_0->Ref_0.referent,
            *place.ty->Some_0->Ref_0.referent,
        ) && (reference->Some_0->Ref_0.mutability == place.ty->Some_0->Ref_0.mutability
            || reference->Some_0->Ref_0.mutability is Mutable
            || place.ty->Some_0->Ref_0.mutability is Immutable)),
{
    reveal(store_ref_issues);
    reveal(compat);
}

/// A binding is clean exactly where the value's type is compatible with the slot's.
pub proof fn law_bind<C: Checker>(c: C, prefix: Seq<char>, found: TyModel, expected: TyModel)
    ensures
        bind_issues(c, prefix, Some(found), Some(expected)).len() == 0 <==> compat(c, found, expected),
        bind_issues(c, prefix, Some(found), Some(found)).len() == 0,
{
    reveal(bind_issues);
    reveal(compat);
}

/// A copy is clean exactly where both types are the same.
pub proof fn law_copy_value(prefix: Seq<char>, found: TyModel, expected: TyModel)
    ensures
        copy_value_issues(prefix, Some(expected), Some(found)).len() == 0 <==> found == expected,
{
    reveal(copy_value_issues);
}

/// A permission is enough where it is the one wanted, or a mutable one, or where only
/// reading is wanted; so an immutable one never gives another.
pub proof fn law_permissions(have: ReferencePermission, want: ReferencePermission, more: ReferencePermission)
    ensures
        grants(have, have),
        grants(ReferencePermission::Mutable, want),
        grants(have, ReferencePermission::Immutable),
        grants(ReferencePermission::Immutable, want) ==> want is Immutable,
        grants(have, want) && grants(want, have) ==> have == want,
        grants(have, want) && grants(want, more) ==> grants(have, more),
        have is Param && grants(have, want) && !(want is Immutable) ==> have == want,
        forall|m: Mutability|
            #![trigger permission_of(m)]
            (permission_of(m) is Mutable <==> m is Mutable) && (permission_of(m) is Immutable <==> m is Immutable) && (
            permission_of(m) is Param ==> m is Param && m->Param_0 == permission_of(m)->Param_0),
{
}

/// A reference is a capability to its referent; so is a pointer to a place or with an
/// origin parameter. No other type is one.
pub proof fn law_capability(ty: TyModel)
    ensures
        capability(ty) is Some ==> ty is Ref || ty is Pointer,
        ty is Ref ==> capability(ty) is Some && capability(ty)->Some_0.0 == *ty->Ref_0.referent,
        ty is Pointer ==> (capability(ty) is Some <==> ty->Pointer_origin is Place || ty->Pointer_origin is Param),
        ty is Pointer && capability(ty) is Some ==> capability(ty)->Some_0.0 == *ty->Pointer_element,
        ty is Ref && ty->Ref_0.mutability is Immutable ==> capability(ty)->Some_0.1 is Immutable,
        ty is Ref && ty->Ref_0.mutability is Mutable ==> capability(ty)->Some_0.1 is Mutable,
        ty is Pointer && ty->Pointer_origin is Place ==> (capability(ty)->Some_0.1 is Mutable
            <==> ty->Pointer_origin->Place_mutable),
{
}

/// Reading through a reference needs one, and a result that fits its referent; writing
/// needs one that may be written, and a value that fits.
#[verifier::rlimit(40)]
pub proof fn law_reference_access<C: Checker>(c: C, prefix: Seq<char>, source: TyModel, value: TyModel)
    ensures
        read_ref_issues(c, prefix, Some(value), Some(source)).len() == 0 <==> capability(source) is Some && compat(
            c,
            value,
            capability(source)->Some_0.0,
        ),
        write_ref_issues(c, prefix, Some(source), Some(value)).len() == 0 <==> capability(source) is Some && !(
        capability(source)->Some_0.1 is Immutable) && compat(c, value, capability(source)->Some_0.0),
        source is Ref && value == *source->Ref_0.referent ==> {
            &&& read_ref_issues(c, prefix, Some(value), Some(source)).len() == 0
            &&& (write_ref_issues(c, prefix, Some(source), Some(value)).len() == 0
                <==> !(source->Ref_0.mutability is Immutable))
        },
        !(source is Ref || source is Pointer) ==> {
            &&& read_ref_issues(c, prefix, Some(value), Some(source)).len() == 1
            &&& write_ref_issues(c, prefix, Some(source), Some(value)).len() == 1
        },
{
    reveal(read_ref_issues);
    reveal(write_ref_issues);
    reveal(compat);
}

/// An integer literal becomes a number or a one-lane vector, a fraction only a
/// floating-point one, and nothing else is a literal.
pub proof fn law_materialize(prefix: Seq<char>, found: TyModel, target: TyModel)
    ensures
        materialize_issues(prefix, Some(found), target).len() == 0 ==> found is IntLiteral || found is FloatLiteral,
        found is IntLiteral ==> (materialize_issues(prefix, Some(found), target).len() == 0 <==> target is Int
            || target is UInt || target is Float64 || (target is Simd && target->Simd_width == 1)),
        found is FloatLiteral && materialize_issues(prefix, Some(found), target).len() == 0 ==> target is Float64
            || target is Simd,
        materialize_issues(prefix, Some(TyModel::FloatLiteral), TyModel::Float64).len() == 0,
        target is Int || target is UInt ==> materialize_issues(prefix, Some(TyModel::FloatLiteral), target).len() == 1,
{
    reveal(materialize_issues);
}

/// A width is clean exactly where it is a power of two: one is, and an even one is
/// where its half is.
pub proof fn law_simd_width(prefix: Seq<char>, width: usize)
    ensures
        simd_width_issues(prefix, 1).len() == 0,
        simd_width_issues(prefix, 0).len() == 1,
        width > 1 && width % 2 == 1 ==> simd_width_issues(prefix, width).len() == 1,
        width > 1 && width % 2 == 0 ==> simd_width_issues(prefix, width).len() == simd_width_issues(
            prefix,
            (width / 2) as usize,
        ).len(),
{
    reveal(simd_width_issues);
}

/// A variant is built at one of its alternatives, from a value that fits it.
pub proof fn law_make_variant<C: Checker>(
    c: C,
    prefix: Seq<char>,
    alternatives: Seq<TyModel>,
    index: usize,
    value: TyModel,
)
    ensures
        make_variant_issues(c, prefix, alternatives, index, Some(value)).len() == 0 <==> index < alternatives.len()
            && compat(c, value, alternatives[index as int]),
        index < alternatives.len() ==> make_variant_issues(
            c,
            prefix,
            alternatives,
            index,
            Some(alternatives[index as int]),
        ).len() == 0,
{
    reveal(make_variant_issues);
    reveal(compat);
}

/// A type parameter constructs itself or a nominal type.
pub proof fn law_construct_param(prefix: Seq<char>, found: TyModel, param: Seq<char>)
    ensures
        construct_param_issues(prefix, Some(found), param).len() == 0 <==> found is Struct || (found is Param
            && found->Param_name == param),
{
    reveal(construct_param_issues);
}

/// A size is an `Int`.
pub proof fn law_size_of(prefix: Seq<char>, declarations: MirDeclarationsModel, found: TyModel, ty: TyModel)
    ensures
        size_of_issues(prefix, declarations, Some(found), ty).len() == 0 ==> found is Int,
        size_of_issues(prefix, declarations, Some(found), ty).len() == size_of_issues(
            prefix,
            declarations,
            Some(TyModel::Int),
            ty,
        ).len() + if found is Int { 0int } else { 1int },
{
    reveal(size_of_issues);
}

/// A closure needs a declared function with a parameter for each capture, and a result
/// that is callable.
pub proof fn law_make_closure(
    prefix: Seq<char>,
    declarations: MirDeclarationsModel,
    dest: TyModel,
    target: Seq<char>,
    captures: Seq<crate::mir::MirCaptureModel>,
)
    ensures
        make_closure_issues(prefix, declarations, Some(dest), target, captures).len() == 0 <==> {
            &&& dest is Func || dest is GenericFunc
            &&& declaration_of(declarations.functions, target) is Some
            &&& captures.len() <= declaration_of(declarations.functions, target)->Some_0.param_types.len()
            &&& forall|i: int|
                0 <= i < captures.len() && i < declaration_of(declarations.functions, target)->Some_0.ref_params.len()
                    ==> #[trigger] declaration_of(declarations.functions, target)->Some_0.ref_params[i]
        },
{
    reveal(make_closure_issues);
}

/// Storage operations on raw memory take an untracked mutable pointer to the element, an
/// `Int` index, and give what is expected.
pub proof fn law_pointer_storage<C: Checker>(
    c: C,
    prefix: Seq<char>,
    dest: TyModel,
    pointer: TyModel,
    index: TyModel,
    element: TyModel,
    expected: TyModel,
)
    ensures
        pointer_storage_op_issues(c, prefix, Some(dest), Some(pointer), Some(index), element, expected).len() == 0
            <==> {
            &&& pointer is Pointer
            &&& pointer->Pointer_origin is Untracked
            &&& pointer->Pointer_origin->Untracked_mutable
            &&& compat(c, *pointer->Pointer_element, element)
            &&& compat(c, index, TyModel::Int)
            &&& compat(c, dest, expected)
        },
{
    reveal(pointer_storage_op_issues);
}

/// Inline storage holds values of its element type, and gives what is expected.
pub proof fn law_uninit_storage<C: Checker>(
    c: C,
    prefix: Seq<char>,
    dest: TyModel,
    storage: TyModel,
    element: TyModel,
    expected: TyModel,
)
    ensures
        uninit_storage_issues(c, prefix, Some(storage), Some(dest)).len() == 0 <==> uninit_element(storage) is Some
            && compat(c, dest, uninit_element(storage)->Some_0),
        uninit_storage_op_issues(c, prefix, Some(dest), Some(storage), element, expected).len() == 0 <==> {
            &&& uninit_element(storage) is Some
            &&& compat(c, uninit_element(storage)->Some_0, element)
            &&& compat(c, dest, expected)
        },
{
    reveal(uninit_storage_issues);
    reveal(uninit_storage_op_issues);
}

/// Raising and calling what raises need a function that raises, or a handler around them.
pub proof fn law_raise(
    prefix: Seq<char>,
    function: MirFunctionModel,
    instruction: MirInstrModel,
    context: RegionContext,
)
    ensures
        raise_issues(prefix, function, instruction, context).len() == 0 <==> function.raises || context.protected || !(
        instruction is Raise || raising_call(instruction)),
        instruction is Call ==> raising_call(instruction) == instruction->Call_raises is Some,
        instruction is CallIndirect ==> raising_call(instruction) == instruction->CallIndirect_raises is Some,
        instruction is MethodCall ==> raising_call(instruction) == instruction->MethodCall_raises is Some,
        instruction is MultiSet ==> raising_call(instruction) == instruction->MultiSet_call.raises is Some,
{
    reveal(raise_issues);
}

/// A terminator without issues stays in its region: jumps and branches go to blocks of
/// it, a condition is a `Bool`, what is returned fits the result, cleaned-up variables
/// exist, and only a `try` region is fallen off or escaped from.
pub proof fn law_terminator<C: Checker>(
    c: C,
    prefix: Seq<char>,
    function: MirFunctionModel,
    terminator: MirTermModel,
    context: RegionContext,
)
    ensures
        terminator is Jump ==> (terminator_issues(c, prefix, function, terminator, context).len() == 0
            <==> terminator->Jump_0 < context.region_len),
        terminator is Branch ==> (terminator_issues(c, prefix, function, terminator, context).len() == 0 <==> {
            &&& terminator->Branch_then_b < context.region_len
            &&& terminator->Branch_else_b < context.region_len
            &&& (reg_found(function, terminator->Branch_cond) is Some ==> reg_found(
                function,
                terminator->Branch_cond,
            )->Some_0 is Bool)
        }),
        terminator is Return && terminator->Return_0 is Some && !function.returns_reference && function.ret_ty is Some
            && reg_found(function, terminator->Return_0->Some_0) is Some ==> (terminator_issues(
            c,
            prefix,
            function,
            terminator,
            context,
        ).len() == 0 <==> compat(
            c,
            reg_found(function, terminator->Return_0->Some_0)->Some_0,
            function.ret_ty->Some_0,
        )),
        terminator is Return && terminator->Return_0 is None ==> terminator_issues(
            c,
            prefix,
            function,
            terminator,
            context,
        ).len() == 0,
        terminator is ReturnWithCleanup && terminator_issues(c, prefix, function, terminator, context).len() == 0 ==> {
            &&& terminator_issues(
                c,
                prefix,
                function,
                MirTermModel::Return(terminator->ReturnWithCleanup_value),
                context,
            ).len() == 0
            &&& forall|i: int|
                0 <= i < terminator->ReturnWithCleanup_cleanup.len()
                    ==> #[trigger] terminator->ReturnWithCleanup_cleanup[i] < function.n_vars
        },
        terminator is FallOff ==> (terminator_issues(c, prefix, function, terminator, context).len() == 0
            <==> context.in_try_region),
        terminator is EscapeJump ==> (terminator_issues(c, prefix, function, terminator, context).len() == 0
            <==> context.in_try_region && terminator->EscapeJump_target < context.function_len),
{
    if terminator is ReturnWithCleanup {
        lemma_cleanup(prefix, function.n_vars, terminator->ReturnWithCleanup_cleanup);
    }
}

proof fn lemma_cleanup(prefix: Seq<char>, n_vars: usize, cleanup: Seq<u32>)
    ensures
        cleanup_issues(prefix, n_vars, cleanup).len() == 0 <==> forall|i: int|
            0 <= i < cleanup.len() ==> #[trigger] cleanup[i] < n_vars,
    decreases cleanup.len(),
{
    if cleanup.len() > 0 {
        lemma_cleanup(prefix, n_vars, cleanup.drop_last());
        assert forall|i: int| 0 <= i < cleanup.len() - 1 implies cleanup[i] == cleanup.drop_last()[i] by {}
        assert(cleanup.last() == cleanup[cleanup.len() - 1]);
        if cleanup_issues(prefix, n_vars, cleanup).len() == 0 {
            assert forall|i: int| 0 <= i < cleanup.len() implies #[trigger] cleanup[i] < n_vars by {
                if i < cleanup.len() - 1 {
                    assert(cleanup.drop_last()[i] < n_vars);
                }
            }
        }
    }
}

/// Registers are clean exactly where each is one of the function's and has a type.
pub proof fn law_registers(prefix: Seq<char>, function: MirFunctionModel, registers: Seq<Reg>)
    ensures
        register_issues(prefix, function, registers).len() == 0 <==> forall|i: int|
            0 <= i < registers.len() ==> (#[trigger] registers[i]).0 < function.n_regs && reg_found(
                function,
                registers[i],
            ) is Some,
    decreases registers.len(),
{
    if registers.len() > 0 {
        let before = registers.drop_last();
        law_registers(prefix, function, before);
        assert forall|i: int| 0 <= i < before.len() implies registers[i] == before[i] by {}
        assert(registers.last() == registers[registers.len() - 1]);
        if register_issues(prefix, function, registers).len() == 0 {
            assert forall|i: int| 0 <= i < registers.len() implies (#[trigger] registers[i]).0 < function.n_regs
                && reg_found(function, registers[i]) is Some by {
                if i < before.len() {
                    assert(before[i].0 < function.n_regs && reg_found(function, before[i]) is Some);
                }
            }
        }
    }
}

/// An instruction is clean exactly where its places, its registers, what it does, what it
/// calls, what it may raise and the regions it holds are.
pub proof fn law_clean_instruction<C: Checker>(
    c: C,
    name: Seq<char>,
    function: MirFunctionModel,
    declarations: MirDeclarationsModel,
    block: nat,
    instruction: MirInstrModel,
    context: RegionContext,
)
    ensures
        instruction_issues(c, name, function, declarations, block, instruction, context).len() == 0 <==> {
            &&& places_issues(
                c,
                name,
                block,
                function,
                declarations,
                places_of(instruction),
                !(instruction is EstablishLoans),
            ).len() == 0
            &&& register_issues(
                block_prefix(name, block),
                function,
                result_regs(instruction) + operand_regs(instruction),
            ).len() == 0
            &&& value_issues(c, block_prefix(name, block), function, declarations, instruction).len() == 0
            &&& dispatch_issues(c, block_prefix(name, block), function, declarations, instruction).len() == 0
            &&& raise_issues(block_prefix(name, block), function, instruction, context).len() == 0
            &&& held_issues(c, name, function, declarations, instruction, context).len() == 0
        },
        instruction is Try ==> (held_issues(c, name, function, declarations, instruction, context).len() == 0 <==> {
            &&& blocks_issues(
                c,
                name,
                function,
                declarations,
                instruction->Try_body,
                RegionContext {
                    region_len: instruction->Try_body.len() as usize,
                    in_try_region: true,
                    protected: context.protected || instruction->Try_handler is Some,
                    ..context
                },
            ).len() == 0
            &&& handler_issues(c, name, function, declarations, instruction->Try_handler, context).len() == 0
            &&& region_issues(c, name, function, declarations, instruction->Try_orelse, context).len() == 0
            &&& region_issues(c, name, function, declarations, instruction->Try_finalbody, context).len() == 0
        }),
{
    reveal(own_issues);
}

proof fn lemma_clean_instructions<C: Checker>(
    c: C,
    name: Seq<char>,
    function: MirFunctionModel,
    declarations: MirDeclarationsModel,
    block: nat,
    instructions: Seq<MirInstrModel>,
    context: RegionContext,
)
    ensures
        instructions_issues(c, name, function, declarations, block, instructions, context).len() == 0
            <==> forall|j: int|
            0 <= j < instructions.len() ==> instruction_issues(
                c,
                name,
                function,
                declarations,
                block,
                #[trigger] instructions[j],
                context,
            ).len() == 0,
    decreases instructions.len(),
{
    if instructions.len() > 0 {
        let before = instructions.drop_last();
        lemma_clean_instructions(c, name, function, declarations, block, before, context);
        assert forall|j: int| 0 <= j < before.len() implies instructions[j] == before[j] by {}
        assert(instructions.last() == instructions[instructions.len() - 1]);
        if instructions_issues(c, name, function, declarations, block, instructions, context).len() == 0 {
            assert forall|j: int| 0 <= j < instructions.len() implies instruction_issues(
                c,
                name,
                function,
                declarations,
                block,
                #[trigger] instructions[j],
                context,
            ).len() == 0 by {
                if j < before.len() {
                    assert(instruction_issues(c, name, function, declarations, block, before[j], context).len() == 0);
                }
            }
        }
    }
}

/// Whether every instruction and the terminator of a block are clean.
pub open spec fn clean_block<C: Checker>(
    c: C,
    name: Seq<char>,
    function: MirFunctionModel,
    declarations: MirDeclarationsModel,
    block: nat,
    body: MirBlockModel,
    context: RegionContext,
) -> bool {
    &&& forall|j: int|
        0 <= j < body.instrs.len() ==> instruction_issues(
            c,
            name,
            function,
            declarations,
            block,
            #[trigger] body.instrs[j],
            context,
        ).len() == 0
    &&& terminator_issues(c, block_prefix(name, block), function, body.term, context).len() == 0
}

/// Blocks are clean exactly where every instruction and every terminator in them is.
pub proof fn law_clean_blocks<C: Checker>(
    c: C,
    name: Seq<char>,
    function: MirFunctionModel,
    declarations: MirDeclarationsModel,
    blocks: Seq<MirBlockModel>,
    context: RegionContext,
)
    ensures
        blocks_issues(c, name, function, declarations, blocks, context).len() == 0 <==> forall|i: int|
            0 <= i < blocks.len() ==> clean_block(
                c,
                name,
                function,
                declarations,
                i as nat,
                #[trigger] blocks[i],
                context,
            ),
    decreases blocks.len(),
{
    if blocks.len() > 0 {
        let before = blocks.drop_last();
        let n = (blocks.len() - 1) as nat;
        law_clean_blocks(c, name, function, declarations, before, context);
        lemma_clean_instructions(c, name, function, declarations, n, blocks.last().instrs, context);
        assert forall|i: int| 0 <= i < before.len() implies blocks[i] == before[i] by {}
        assert(blocks.last() == blocks[n as int]);
        if blocks_issues(c, name, function, declarations, blocks, context).len() == 0 {
            assert forall|i: int| 0 <= i < blocks.len() implies clean_block(
                c,
                name,
                function,
                declarations,
                i as nat,
                #[trigger] blocks[i],
                context,
            ) by {
                if i < n {
                    assert(clean_block(c, name, function, declarations, i as nat, before[i], context));
                }
            }
        } else if forall|i: int| 0 <= i < blocks.len() ==> clean_block(
            c,
            name,
            function,
            declarations,
            i as nat,
            #[trigger] blocks[i],
            context,
        ) {
            assert forall|i: int| 0 <= i < before.len() implies clean_block(
                c,
                name,
                function,
                declarations,
                i as nat,
                #[trigger] before[i],
                context,
            ) by {
                assert(clean_block(c, name, function, declarations, i as nat, blocks[i], context));
            }
            assert(clean_block(c, name, function, declarations, n, blocks[n as int], context));
        }
    }
}

/// In a body without issues each store has a source whose type is that of the storage,
/// or is compatible with it, and each of its registers is there and typed.
pub proof fn law_clean_stores<C: Checker>(
    c: C,
    name: Seq<char>,
    function: MirFunctionModel,
    declarations: MirDeclarationsModel,
    blocks: Seq<MirBlockModel>,
    context: RegionContext,
    i: int,
    j: int,
)
    requires
        blocks_issues(c, name, function, declarations, blocks, context).len() == 0,
        0 <= i < blocks.len(),
        0 <= j < blocks[i].instrs.len(),
        blocks[i].instrs[j] is Store,
    ensures
        ({
            let place = blocks[i].instrs[j]->Store_place;
            let src = reg_found(function, blocks[i].instrs[j]->Store_src);
            &&& blocks[i].instrs[j]->Store_src.0 < function.n_regs
            &&& src is Some
            &&& place.ty is Some ==> compat(c, src->Some_0, storage(place.ty->Some_0))
            &&& place.ty is Some && compared_by_value(src->Some_0) && compared_by_value(storage(place.ty->Some_0))
                ==> src->Some_0 == storage(place.ty->Some_0) || c.coerces(src->Some_0, storage(place.ty->Some_0))
                || c.coerces(storage(place.ty->Some_0), src->Some_0)
        }),
{
    let instruction = blocks[i].instrs[j];
    law_clean_blocks(c, name, function, declarations, blocks, context);
    assert(clean_block(c, name, function, declarations, i as nat, blocks[i], context));
    law_clean_instruction(c, name, function, declarations, i as nat, instruction, context);
    let prefix = block_prefix(name, i as nat);
    let src = instruction->Store_src;
    law_registers(prefix, function, result_regs(instruction) + operand_regs(instruction));
    law_store_registers(instruction);
    law_value_checks(c, prefix, function, declarations, instruction);
    let registers = result_regs(instruction) + operand_regs(instruction);
    let k = choose|k: int| 0 <= k < registers.len() && registers[k] == src;
    assert(registers[k].0 < function.n_regs);
    law_store(c, prefix, instruction->Store_place, reg_found(function, src));
    if instruction->Store_place.ty is Some {
        law_compatible_types(c, reg_found(function, src)->Some_0, storage(instruction->Store_place.ty->Some_0));
    }
}

/// A store reads its source.
pub proof fn law_store_registers(instruction: MirInstrModel)
    requires
        instruction is Store,
    ensures
        (result_regs(instruction) + operand_regs(instruction)).contains(instruction->Store_src),
{
    let src = instruction->Store_src;
    let registers = result_regs(instruction) + operand_regs(instruction);
    assert(registers.last() == src);
}

/// Each instruction on values is held to the check of its kind, on the types of its own
/// registers and places.
pub proof fn law_value_checks<C: Checker>(
    c: C,
    prefix: Seq<char>,
    function: MirFunctionModel,
    declarations: MirDeclarationsModel,
    instruction: MirInstrModel,
)
    ensures
        instruction is Store ==> value_issues(c, prefix, function, declarations, instruction) == store_issues(
            c,
            prefix,
            instruction->Store_place,
            reg_found(function, instruction->Store_src),
        ),
        instruction is StoreRef ==> value_issues(c, prefix, function, declarations, instruction) == store_ref_issues(
            c,
            prefix,
            instruction->StoreRef_place,
            reg_found(function, instruction->StoreRef_reference),
        ),
        instruction is DefVar ==> value_issues(c, prefix, function, declarations, instruction) == bind_issues(
            c,
            prefix,
            reg_found(function, instruction->DefVar_src),
            instruction->DefVar_binding_ty,
        ),
        instruction is CopyValue ==> value_issues(c, prefix, function, declarations, instruction) == copy_value_issues(
            prefix,
            reg_found(function, instruction->CopyValue_dest),
            reg_found(function, instruction->CopyValue_value),
        ),
        instruction is ReadRef ==> value_issues(c, prefix, function, declarations, instruction) == read_ref_issues(
            c,
            prefix,
            reg_found(function, instruction->ReadRef_dest),
            reg_found(function, instruction->ReadRef_reference),
        ),
        instruction is WriteRef ==> value_issues(c, prefix, function, declarations, instruction) == write_ref_issues(
            c,
            prefix,
            reg_found(function, instruction->WriteRef_reference),
            reg_found(function, instruction->WriteRef_value),
        ),
{
    reveal(value_issues);
}

/// Only the body of a `try` is under the protection of its handler: the handler itself,
/// the `else` and the `finally` are as protected as what is around the `try`.
pub proof fn law_handler_protection<C: Checker>(
    c: C,
    name: Seq<char>,
    function: MirFunctionModel,
    declarations: MirDeclarationsModel,
    blocks: Seq<MirBlockModel>,
    slot: Option<u32>,
    context: RegionContext,
)
    ensures
        handler_issues(c, name, function, declarations, Some((slot, blocks)), context) == blocks_issues(
            c,
            name,
            function,
            declarations,
            blocks,
            RegionContext { region_len: blocks.len() as usize, in_try_region: true, ..context },
        ),
        region_issues(c, name, function, declarations, Some(blocks), context) == blocks_issues(
            c,
            name,
            function,
            declarations,
            blocks,
            RegionContext { region_len: blocks.len() as usize, in_try_region: true, ..context },
        ),
        handler_issues(c, name, function, declarations, None, context).len() == 0,
        region_issues(c, name, function, declarations, None, context).len() == 0,
{
}

/// The other instructions on values are held to the checks of their kinds in the same
/// way: reading storage gives its element, and destroying it gives nothing.
#[verifier::rlimit(40)]
pub proof fn law_storage_checks<C: Checker>(
    c: C,
    prefix: Seq<char>,
    function: MirFunctionModel,
    declarations: MirDeclarationsModel,
    instruction: MirInstrModel,
)
    ensures
        instruction is MakeSimd ==> value_issues(c, prefix, function, declarations, instruction)
            == simd_width_issues(prefix, instruction->MakeSimd_width),
        instruction is SimdCast ==> value_issues(c, prefix, function, declarations, instruction)
            == simd_width_issues(prefix, instruction->SimdCast_width),
        instruction is SimdShuffle ==> value_issues(c, prefix, function, declarations, instruction)
            == simd_shuffle_issues(prefix, reg_found(function, instruction->SimdShuffle_value),
                instruction->SimdShuffle_mask),
        instruction is EstablishLoans ==> value_issues(c, prefix, function, declarations, instruction)
            == establish_loans_issues(c, prefix, function, instruction->EstablishLoans_reference,
                instruction->EstablishLoans_loans, instruction->EstablishLoans_dest_interior),
        instruction is InvalidateInteriors ==> value_issues(c, prefix, function, declarations, instruction)
            == invalidate_interiors_issues(prefix, function, instruction->InvalidateInteriors_base,
                instruction->InvalidateInteriors_except,
                instruction->InvalidateInteriors_include_base_generation),
        instruction is MakeRef ==> value_issues(c, prefix, function, declarations, instruction)
            == make_ref_issues(c, prefix, reg_found(function, instruction->MakeRef_dest),
                instruction->MakeRef_place),
        instruction is MaterializeLiteral ==> value_issues(c, prefix, function, declarations, instruction)
            == materialize_issues(prefix, reg_found(function, instruction->MaterializeLiteral_value),
                instruction->MaterializeLiteral_target),
        instruction is ConstructTypeParam ==> value_issues(c, prefix, function, declarations, instruction)
            == construct_param_issues(prefix, reg_found(function, instruction->ConstructTypeParam_dest),
                instruction->ConstructTypeParam_param),
        instruction is SizeOf ==> value_issues(c, prefix, function, declarations, instruction)
            == size_of_issues(prefix, declarations, reg_found(function, instruction->SizeOf_dest),
                instruction->SizeOf_ty),
        instruction is MakeVariant ==> value_issues(c, prefix, function, declarations, instruction)
            == make_variant_issues(c, prefix, instruction->MakeVariant_alternatives,
                instruction->MakeVariant_index, reg_found(function, instruction->MakeVariant_value)),
        instruction is MakeClosure ==> value_issues(c, prefix, function, declarations, instruction)
            == make_closure_issues(prefix, declarations, reg_found(function,
                instruction->MakeClosure_dest), instruction->MakeClosure_function,
                instruction->MakeClosure_captures),
        instruction is PointerStorageTake ==> value_issues(c, prefix, function, declarations, instruction)
            == pointer_storage_op_issues(c, prefix, reg_found(function,
                instruction->PointerStorageTake_dest), reg_found(function,
                instruction->PointerStorageTake_pointer), reg_found(function,
                instruction->PointerStorageTake_index), instruction->PointerStorageTake_element,
                instruction->PointerStorageTake_element),
        instruction is PointerStorageDestroy ==> value_issues(c, prefix, function, declarations, instruction)
            == pointer_storage_op_issues(c, prefix, reg_found(function,
                instruction->PointerStorageDestroy_dest), reg_found(function,
                instruction->PointerStorageDestroy_pointer), reg_found(function,
                instruction->PointerStorageDestroy_index), instruction->PointerStorageDestroy_element,
                TyModel::NoneType),
        instruction is UninitStorageTake ==> value_issues(c, prefix, function, declarations, instruction)
            == uninit_storage_op_issues(c, prefix, reg_found(function,
                instruction->UninitStorageTake_dest), reg_found(function,
                instruction->UninitStorageTake_storage), instruction->UninitStorageTake_element,
                instruction->UninitStorageTake_element),
        instruction is UninitStorageDestroy ==> value_issues(c, prefix, function, declarations, instruction)
            == uninit_storage_op_issues(c, prefix, reg_found(function,
                instruction->UninitStorageDestroy_dest), reg_found(function,
                instruction->UninitStorageDestroy_storage), instruction->UninitStorageDestroy_element,
                TyModel::NoneType),
{
    reveal(value_issues);
}

/// Each call and each step of an iteration is held to the check of its kind, on its own
/// registers, places and metadata.
#[verifier::rlimit(40)]
pub proof fn law_dispatch_checks<C: Checker>(
    c: C,
    prefix: Seq<char>,
    function: MirFunctionModel,
    declarations: MirDeclarationsModel,
    instruction: MirInstrModel,
)
    ensures
        instruction is GetIter ==> dispatch_issues(c, prefix, function, declarations, instruction)
            == get_iter_issues(prefix, function, declarations, instruction->GetIter_source,
                instruction->GetIter_dest, instruction->GetIter_mode, instruction->GetIter_prepare),
        instruction is Next ==> dispatch_issues(c, prefix, function, declarations, instruction)
            == next_issues(c, prefix, function, declarations, reg_found(function, instruction->Next_dest),
                instruction->Next_iter, instruction->Next_call),
        instruction is TryNext ==> dispatch_issues(c, prefix, function, declarations, instruction)
            == try_next_issues(c, prefix, function, declarations, reg_found(function,
                instruction->TryNext_dest), reg_found(function, instruction->TryNext_yielded),
                instruction->TryNext_iter, instruction->TryNext_call, instruction->TryNext_exhaustion),
        instruction is Index ==> dispatch_issues(c, prefix, function, declarations, instruction)
            == index_issues(c, prefix, function, declarations, instruction->Index_dest,
                instruction->Index_base, instruction->Index_index, instruction->Index_base_place,
                instruction->Index_index_place, instruction->Index_call, instruction->Index_intrinsic),
        instruction is Slice ==> dispatch_issues(c, prefix, function, declarations, instruction)
            == slice_issues(c, prefix, function, declarations, instruction->Slice_dest,
                instruction->Slice_object, instruction->Slice_kind, instruction->Slice_object_place,
                instruction->Slice_arg_places, instruction->Slice_call, instruction->Slice_intrinsic),
        instruction is MultiIndex ==> dispatch_issues(c, prefix, function, declarations, instruction)
            == multi_index_issues(c, prefix, function, declarations, instruction->MultiIndex_dest,
                instruction->MultiIndex_object, instruction->MultiIndex_args,
                instruction->MultiIndex_object_place, instruction->MultiIndex_arg_places,
                instruction->MultiIndex_kwargs, instruction->MultiIndex_kwarg_places,
                instruction->MultiIndex_call),
        instruction is MultiSet ==> dispatch_issues(c, prefix, function, declarations, instruction)
            == multi_set_issues(c, prefix, function, declarations, instruction->MultiSet_receiver,
                instruction->MultiSet_receiver_place, instruction->MultiSet_args,
                instruction->MultiSet_arg_places, instruction->MultiSet_value,
                instruction->MultiSet_value_place, instruction->MultiSet_value_keyword,
                instruction->MultiSet_call),
        instruction is Call ==> dispatch_issues(c, prefix, function, declarations, instruction)
            == call_issues(c, prefix, function, declarations, instruction->Call_func.0,
                instruction->Call_args, instruction->Call_kwargs, instruction->Call_arg_places,
                instruction->Call_kwarg_places, instruction->Call_capture_accesses,
                instruction->Call_param_arg_regs),
        instruction is MethodCall && instruction->MethodCall_resolved is Some ==> dispatch_issues(c,
                prefix, function, declarations, instruction)
            == method_call_issues(c, prefix, function, declarations, reg_found(function,
                instruction->MethodCall_dest), instruction->MethodCall_method,
                instruction->MethodCall_resolved->Some_0, instruction->MethodCall_reference_result,
                instruction->MethodCall_result_adapter, instruction->MethodCall_args,
                instruction->MethodCall_kwargs, instruction->MethodCall_arg_places,
                instruction->MethodCall_kwarg_places, instruction->MethodCall_capture_accesses,
                instruction->MethodCall_param_arg_regs, instruction->MethodCall_param_decls),
{
    reveal(dispatch_issues);
}

/// A type mentions a parameter exactly where it is one, or one of its parts does; numbers
/// and texts mention none.
pub proof fn law_type_params(
    ty: TyModel,
    parts: Seq<TyModel>,
    reference: crate::origin::RefTyModel,
    origin: PointerOriginModel,
)
    ensures
        ty is Param || ty is Assoc || ty is Dependent ==> has_type_param(ty),
        ty is Int || ty is UInt || ty is Float64 || ty is Bool || ty is StringLiteral || ty is NoneType || ty is Simd
            ==> !has_type_param(ty),
        has_type_param(TyModel::Tuple(parts)) <==> exists|i: int|
            0 <= i < parts.len() && has_type_param(#[trigger] parts[i]),
        has_type_param(TyModel::Variant(parts)) <==> has_type_param(TyModel::Tuple(parts)),
        has_type_param(TyModel::RuntimePack(parts)) <==> has_type_param(TyModel::Tuple(parts)),
        has_type_param(TyModel::ComptimeList(Box::new(ty))) <==> has_type_param(ty),
        has_type_param(TyModel::Pointer { element: Box::new(ty), origin }) <==> has_type_param(ty),
        has_type_param(TyModel::Ref(reference)) <==> has_type_param(*reference.referent),
        has_type_param(TyModel::Struct(Seq::empty(), seq![crate::types::TyArgModel::Ty(ty)])) <==> has_type_param(ty),
        ty is Func && has_type_param(*ty->Func_ret) ==> has_type_param(ty),
{
    assert(has_type_param(TyModel::Tuple(parts)) == any_type_param(parts));
    assert(has_type_param(TyModel::Variant(parts)) == any_type_param(parts));
    assert(has_type_param(TyModel::RuntimePack(parts)) == any_type_param(parts));
    let args = seq![crate::types::TyArgModel::Ty(ty)];
    assert(args[0] == crate::types::TyArgModel::Ty(ty));
    assert(has_type_param(TyModel::Struct(Seq::empty(), args)) == any_arg_type_param(args));
    if has_type_param(ty) {
        assert(args[0] matches crate::types::TyArgModel::Ty(t) && has_type_param(t));
    }
}

/// A type holds a runtime pack exactly where it is one, or one of its parts does.
pub proof fn law_runtime_packs(
    ty: TyModel,
    parts: Seq<TyModel>,
    reference: crate::origin::RefTyModel,
    origin: PointerOriginModel,
)
    ensures
        has_runtime_pack(TyModel::RuntimePack(parts)),
        ty is Int || ty is Float64 || ty is Bool || ty is StringLiteral || ty is Param ==> !has_runtime_pack(ty),
        has_runtime_pack(TyModel::Tuple(parts)) <==> exists|i: int|
            0 <= i < parts.len() && has_runtime_pack(#[trigger] parts[i]),
        has_runtime_pack(TyModel::Variant(parts)) <==> has_runtime_pack(TyModel::Tuple(parts)),
        has_runtime_pack(TyModel::Overload(parts)) <==> has_runtime_pack(TyModel::Tuple(parts)),
        has_runtime_pack(TyModel::ComptimeList(Box::new(ty))) <==> has_runtime_pack(ty),
        has_runtime_pack(TyModel::Pointer { element: Box::new(ty), origin }) <==> has_runtime_pack(ty),
        has_runtime_pack(TyModel::Ref(reference)) <==> has_runtime_pack(*reference.referent),
        ty is Func && has_runtime_pack(*ty->Func_ret) ==> has_runtime_pack(ty),
{
    assert(has_runtime_pack(TyModel::Tuple(parts)) == any_runtime_pack(parts));
    assert(has_runtime_pack(TyModel::Variant(parts)) == any_runtime_pack(parts));
    assert(has_runtime_pack(TyModel::Overload(parts)) == any_runtime_pack(parts));
}

/// An adapter goes with abstract iteration by value, and with nothing else.
pub proof fn law_iterator_adapter(prefix: Seq<char>, call: crate::checked::CheckedIteratorCallModel)
    ensures
        iterator_adapter_issues(prefix, call).len() == 0 <==> {
            &&& call.result_adapter is Some ==> abstract_iterator(call) && call.reference_result is None
            &&& call.result_adapter is None ==> !abstract_iterator(call) || call.reference_result is Some
        },
{
}

} // verus!
