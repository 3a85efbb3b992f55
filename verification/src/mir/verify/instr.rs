//! Verification of instructions and blocks.

use crate::data::strings_view;
use crate::mir::{
    MirBlock, MirBlockModel, MirDeclarations, MirDeclarationsModel, MirFunction, MirFunctionModel,
    MirInstr, MirInstrModel, MirPlace, MirPlaceModel, MirSubscriptCall, MirSubscriptCallModel, Reg,
    blocks_view, instrs_view, opt_blocks_view, opt_opt_u32_blocks_view, opt_subscript_call_view,
};
use crate::mir::verify::{Checker, RegionContext, block_prefix, found_view, prefix_of, report, rule};
use crate::mir::verify::calls::{
    call_indirect_issues, call_issues, get_iter_issues, index_issues, method_call_issues,
    multi_index_issues, multi_set_issues, next_issues, slice_issues, try_next_issues, verify_call,
    verify_call_indirect, verify_get_iter, verify_index, verify_method_call, verify_multi_index,
    verify_multi_set, verify_next, verify_slice, verify_try_next,
};
use crate::mir::verify::places::{
    instruction_places, place_issues, place_refs_view, places_of, terminator_issues, verify_place,
    verify_terminator,
};
use crate::mir::verify::regs::{instruction_operand_regs, instruction_result_regs, operand_regs, result_regs};
use crate::mir::verify::values::{
    bind_issues, construct_param_issues, copy_value_issues, establish_loans_issues,
    invalidate_interiors_issues, make_closure_issues, make_ref_issues, make_variant_issues,
    materialize_issues, pointer_storage_op_issues, read_ref_issues, reg_found, reg_type,
    simd_shuffle_issues, simd_width_issues, size_of_issues, store_issues, store_ref_issues,
    uninit_storage_issues, uninit_storage_op_issues, verify_bind, verify_construct_param,
    verify_copy_value, verify_establish_loans, verify_invalidate_interiors, verify_make_closure,
    verify_make_ref, verify_make_variant, verify_materialize, verify_pointer_storage_op,
    verify_read_ref, verify_simd_shuffle, verify_simd_width, verify_size_of, verify_store,
    verify_store_ref, verify_uninit_storage, verify_uninit_storage_op, verify_write_ref,
    write_ref_issues,
};
use crate::text::{cat2, cat3, dec, dec_text};
use crate::types::{Ty, TyModel};
use vstd::prelude::*;

verus! {

/// The issues of places in order.
pub open spec fn places_issues<C: Checker>(
    c: C,
    name: Seq<char>,
    block: nat,
    function: MirFunctionModel,
    declarations: MirDeclarationsModel,
    places: Seq<MirPlaceModel>,
    executable: bool,
) -> Seq<Seq<char>>
    decreases places.len(),
{
    if places.len() == 0 {
        Seq::empty()
    } else {
        places_issues(c, name, block, function, declarations, places.drop_last(), executable) + place_issues(
            c,
            name,
            block,
            function,
            declarations,
            places.last(),
            executable,
        )
    }
}

fn verify_places<C: Checker>(
    c: &C,
    name: &str,
    block: usize,
    function: &MirFunction,
    declarations: &MirDeclarations,
    places: &Vec<&MirPlace>,
    executable: bool,
    errors: &mut Vec<String>,
)
    ensures
        strings_view(*final(errors)) == strings_view(*old(errors)) + places_issues(
            *c,
            name@,
            block as nat,
            function@,
            declarations@,
            place_refs_view(places@),
            executable,
        ),
{
    let ghost start = strings_view(*errors);
    let ghost model = place_refs_view(places@);
    assert(
        start =~= start + places_issues(
            *c,
            name@,
            block as nat,
            function@,
            declarations@,
            model.take(0),
            executable,
        )
    );
    for i in 0..places.len()
        invariant
            model == place_refs_view(places@),
            strings_view(*errors) == start + places_issues(
                *c,
                name@,
                block as nat,
                function@,
                declarations@,
                model.take(i as int),
                executable,
            ),
    {
        assert(model.take(i + 1).drop_last() =~= model.take(i as int));
        verify_place(c, name, block, function, declarations, places[i], executable, errors);
        assert(strings_view(*errors) =~= start + places_issues(
            *c,
            name@,
            block as nat,
            function@,
            declarations@,
            model.take(i + 1),
            executable,
        ));
    }
    assert(model.take(model.len() as int) =~= model);
}

/// The issue of one register: it is out of bounds, or has no type.
pub open spec fn register_issue(
    prefix: Seq<char>,
    function: MirFunctionModel,
    register: Reg,
) -> Seq<Seq<char>> {
    if register.0 >= function.n_regs {
        seq![prefix + ": invalid register r"@ + dec(register.0 as nat)]
    } else {
        rule(reg_found(function, register) is None, prefix + ": untyped register r"@ + dec(register.0 as nat))
    }
}

/// The issues of registers in order.
pub open spec fn register_issues(
    prefix: Seq<char>,
    function: MirFunctionModel,
    registers: Seq<Reg>,
) -> Seq<Seq<char>>
    decreases registers.len(),
{
    if registers.len() == 0 {
        Seq::empty()
    } else {
        register_issues(
            prefix,
            function,
            registers.drop_last(),
        ) + register_issue(prefix, function, registers.last())
    }
}

fn verify_registers(prefix: &str, function: &MirFunction, registers: &Vec<Reg>, errors: &mut Vec<String>)
    ensures
        strings_view(*final(errors)) == strings_view(*old(errors)) + register_issues(
            prefix@,
            function@,
            registers@,
        ),
{
    let ghost start = strings_view(*errors);
    assert(start =~= start + register_issues(prefix@, function@, registers@.take(0)));
    for i in 0..registers.len()
        invariant
            strings_view(*errors) == start + register_issues(prefix@, function@, registers@.take(i as int)),
    {
        assert(registers@.take(i + 1).drop_last() =~= registers@.take(i as int));
        let register: Reg = registers[i];
        if register.0 >= function.n_regs {
            report(errors, cat3(prefix, ": invalid register r", &dec_text(register.0 as u64)));
        } else if !function.reg_types.contains_key(register.0) {
            report(errors, cat3(prefix, ": untyped register r", &dec_text(register.0 as u64)));
        }
        assert(strings_view(*errors) =~= start + register_issues(prefix@, function@, registers@.take(i + 1)));
    }
    assert(registers@.take(registers@.len() as int) =~= registers@);
}

/// The type of an optional register.
pub open spec fn opt_reg_found(function: MirFunctionModel, register: Option<Reg>) -> Option<TyModel> {
    match register {
        Some(register) => reg_found(function, register),
        None => None,
    }
}

fn opt_reg_type<'a>(function: &'a MirFunction, register: &Option<Reg>) -> (r: Option<&'a Ty>)
    ensures
        found_view(r) == opt_reg_found(function@, *register),
{
    match register {
        Some(register) => reg_type(function, *register),
        None => None,
    }
}

/// The issues of what one value instruction does, against the types of its
/// registers and places.
#[verifier::opaque]
pub open spec fn value_issues<C: Checker>(
    c: C,
    prefix: Seq<char>,
    function: MirFunctionModel,
    declarations: MirDeclarationsModel,
    instruction: MirInstrModel,
) -> Seq<Seq<char>> {
    match instruction {
        MirInstrModel::MakeSimd { width, .. } => simd_width_issues(prefix, width),
        MirInstrModel::SimdCast { width, .. } => simd_width_issues(prefix, width),
        MirInstrModel::SimdShuffle { value, mask, .. } => simd_shuffle_issues(
            prefix,
            reg_found(function, value),
            mask,
        ),
        MirInstrModel::EstablishLoans { reference, loans, dest_interior, .. } => establish_loans_issues(
            c,
            prefix,
            function,
            reference,
            loans,
            dest_interior,
        ),
        MirInstrModel::InvalidateInteriors {
            base,
            except,
            include_base_generation,
            ..
        } => invalidate_interiors_issues(
            prefix,
            function,
            base,
            except,
            include_base_generation,
        ),
        MirInstrModel::MakeRef { dest, place } => make_ref_issues(
            c,
            prefix,
            reg_found(function, dest),
            place,
        ),
        MirInstrModel::ReadRef { dest, reference } => read_ref_issues(
            c,
            prefix,
            reg_found(function, dest),
            reg_found(function, reference),
        ),
        MirInstrModel::WriteRef { reference, value } => write_ref_issues(
            c,
            prefix,
            reg_found(function, reference),
            reg_found(function, value),
        ),
        MirInstrModel::MaterializeLiteral { value, target, .. } => materialize_issues(
            prefix,
            reg_found(function, value),
            target,
        ),
        MirInstrModel::ConstructTypeParam { dest, param } => construct_param_issues(
            prefix,
            reg_found(function, dest),
            param,
        ),
        MirInstrModel::SizeOf { dest, ty } => size_of_issues(
            prefix,
            declarations,
            reg_found(function, dest),
            ty,
        ),
        MirInstrModel::CopyValue { dest, value } => copy_value_issues(
            prefix,
            reg_found(function, dest),
            reg_found(function, value),
        ),
        MirInstrModel::Store { place, src } => store_issues(c, prefix, place, reg_found(function, src)),
        MirInstrModel::StoreRef { place, reference } => store_ref_issues(
            c,
            prefix,
            place,
            reg_found(function, reference),
        ),
        MirInstrModel::DefVar { src, binding_ty, .. } => bind_issues(
            c,
            prefix,
            reg_found(function, src),
            binding_ty,
        ),
        MirInstrModel::MakeVariant { alternatives, index, value, .. } => make_variant_issues(
            c,
            prefix,
            alternatives,
            index,
            reg_found(function, value),
        ),
        MirInstrModel::MakeClosure { dest, function: target, captures } => make_closure_issues(
            prefix,
            declarations,
            reg_found(function, dest),
            target,
            captures,
        ),
        MirInstrModel::PointerStorageTake { dest, pointer, index, element } => pointer_storage_op_issues(
            c,
            prefix,
            reg_found(function, dest),
            reg_found(function, pointer),
            reg_found(function, index),
            element,
            element,
        ),
        MirInstrModel::PointerStorageDestroy { dest, pointer, index, element } => pointer_storage_op_issues(
            c,
            prefix,
            reg_found(function, dest),
            reg_found(function, pointer),
            reg_found(function, index),
            element,
            TyModel::NoneType,
        ),
        MirInstrModel::UninitStorage { dest, init } => uninit_storage_issues(
            c,
            prefix,
            reg_found(function, dest),
            opt_reg_found(function, init),
        ),
        MirInstrModel::UninitStorageTake { dest, storage, element } => uninit_storage_op_issues(
            c,
            prefix,
            reg_found(function, dest),
            reg_found(function, storage),
            element,
            element,
        ),
        MirInstrModel::UninitStorageDestroy { dest, storage, element } => uninit_storage_op_issues(
            c,
            prefix,
            reg_found(function, dest),
            reg_found(function, storage),
            element,
            TyModel::NoneType,
        ),
        _ => Seq::empty(),
    }
}

fn verify_value<C: Checker>(
    c: &C,
    prefix: &str,
    function: &MirFunction,
    declarations: &MirDeclarations,
    instruction: &MirInstr,
    errors: &mut Vec<String>,
)
    ensures
        strings_view(*final(errors)) == strings_view(*old(errors)) + value_issues(
            *c,
            prefix@,
            function@,
            declarations@,
            instruction@,
        ),
{
    proof {
        reveal(value_issues);
    }
    let ghost start = strings_view(*errors);
    match instruction {
        MirInstr::MakeSimd { width, .. } => verify_simd_width(prefix, *width, errors),
        MirInstr::SimdCast { width, .. } => verify_simd_width(prefix, *width, errors),
        MirInstr::SimdShuffle { value, mask, .. } => verify_simd_shuffle(
            prefix,
            reg_type(function, *value),
            mask,
            errors,
        ),
        MirInstr::EstablishLoans { reference, loans, dest_interior, .. } => verify_establish_loans(
            c,
            prefix,
            function,
            *reference,
            loans,
            dest_interior,
            errors,
        ),
        MirInstr::InvalidateInteriors {
            base,
            except,
            include_base_generation,
            ..
        } => verify_invalidate_interiors(
            prefix,
            function,
            base,
            except,
            *include_base_generation,
            errors,
        ),
        MirInstr::MakeRef { dest, place } => verify_make_ref(
            c,
            prefix,
            reg_type(function, *dest),
            place,
            errors,
        ),
        MirInstr::ReadRef { dest, reference } => verify_read_ref(
            c,
            prefix,
            reg_type(function, *dest),
            reg_type(function, *reference),
            errors,
        ),
        MirInstr::WriteRef { reference, value } => verify_write_ref(
            c,
            prefix,
            reg_type(function, *reference),
            reg_type(function, *value),
            errors,
        ),
        MirInstr::MaterializeLiteral { value, target, .. } => verify_materialize(
            prefix,
            reg_type(function, *value),
            target,
            errors,
        ),
        MirInstr::ConstructTypeParam { dest, param } => verify_construct_param(
            prefix,
            reg_type(function, *dest),
            param,
            errors,
        ),
        MirInstr::SizeOf { dest, ty } => verify_size_of(
            prefix,
            declarations,
            reg_type(function, *dest),
            ty,
            errors,
        ),
        MirInstr::CopyValue { dest, value } => verify_copy_value(
            prefix,
            reg_type(function, *dest),
            reg_type(function, *value),
            errors,
        ),
        MirInstr::Store { place, src } => verify_store(c, prefix, place, reg_type(function, *src), errors),
        MirInstr::StoreRef { place, reference } => verify_store_ref(
            c,
            prefix,
            place,
            reg_type(function, *reference),
            errors,
        ),
        MirInstr::DefVar { src, binding_ty, .. } => verify_bind(
            c,
            prefix,
            reg_type(function, *src),
            binding_ty,
            errors,
        ),
        MirInstr::MakeVariant { alternatives, index, value, .. } => verify_make_variant(
            c,
            prefix,
            alternatives,
            *index,
            reg_type(function, *value),
            errors,
        ),
        MirInstr::MakeClosure { dest, function: target, captures } => verify_make_closure(
            prefix,
            declarations,
            reg_type(function, *dest),
            target,
            captures,
            errors,
        ),
        MirInstr::PointerStorageTake { dest, pointer, index, element } => verify_pointer_storage_op(
            c,
            prefix,
            reg_type(function, *dest),
            reg_type(function, *pointer),
            reg_type(function, *index),
            element,
            element,
            errors,
        ),
        MirInstr::PointerStorageDestroy { dest, pointer, index, element } => verify_pointer_storage_op(
            c,
            prefix,
            reg_type(function, *dest),
            reg_type(function, *pointer),
            reg_type(function, *index),
            element,
            &Ty::NoneType,
            errors,
        ),
        MirInstr::UninitStorage { dest, init } => verify_uninit_storage(
            c,
            prefix,
            reg_type(function, *dest),
            opt_reg_type(function, init),
            errors,
        ),
        MirInstr::UninitStorageTake { dest, storage, element } => verify_uninit_storage_op(
            c,
            prefix,
            reg_type(function, *dest),
            reg_type(function, *storage),
            element,
            element,
            errors,
        ),
        MirInstr::UninitStorageDestroy { dest, storage, element } => verify_uninit_storage_op(
            c,
            prefix,
            reg_type(function, *dest),
            reg_type(function, *storage),
            element,
            &Ty::NoneType,
            errors,
        ),
        _ => {
            assert(strings_view(*errors) =~= start + Seq::<Seq<char>>::empty());
        },
    }
}

/// The issues of one loop, subscript or call instruction.
#[verifier::opaque]
pub open spec fn dispatch_issues<C: Checker>(
    c: C,
    prefix: Seq<char>,
    function: MirFunctionModel,
    declarations: MirDeclarationsModel,
    instruction: MirInstrModel,
) -> Seq<Seq<char>> {
    match instruction {
        MirInstrModel::GetIter { source, dest, mode, prepare } => get_iter_issues(
            prefix,
            function,
            declarations,
            source,
            dest,
            mode,
            prepare,
        ),
        MirInstrModel::Next { dest, iter, call } => next_issues(
            c,
            prefix,
            function,
            declarations,
            reg_found(function, dest),
            iter,
            call,
        ),
        MirInstrModel::TryNext { dest, yielded, iter, call, exhaustion } => try_next_issues(
            c,
            prefix,
            function,
            declarations,
            reg_found(function, dest),
            reg_found(function, yielded),
            iter,
            call,
            exhaustion,
        ),
        MirInstrModel::Index { dest, base, index, base_place, index_place, call, intrinsic } => index_issues(
            c,
            prefix,
            function,
            declarations,
            dest,
            base,
            index,
            base_place,
            index_place,
            call,
            intrinsic,
        ),
        MirInstrModel::Slice {
            dest,
            object,
            kind,
            object_place,
            arg_places,
            call,
            intrinsic,
            ..
        } => slice_issues(
            c,
            prefix,
            function,
            declarations,
            dest,
            object,
            kind,
            object_place,
            arg_places,
            call,
            intrinsic,
        ),
        MirInstrModel::MultiIndex {
            dest,
            object,
            args,
            object_place,
            arg_places,
            kwargs,
            kwarg_places,
            call,
        } => multi_index_issues(
            c,
            prefix,
            function,
            declarations,
            dest,
            object,
            args,
            object_place,
            arg_places,
            kwargs,
            kwarg_places,
            call,
        ),
        MirInstrModel::MultiSet {
            receiver,
            receiver_place,
            args,
            arg_places,
            value,
            value_place,
            value_keyword,
            call,
        } => multi_set_issues(
            c,
            prefix,
            function,
            declarations,
            receiver,
            receiver_place,
            args,
            arg_places,
            value,
            value_place,
            value_keyword,
            call,
        ),
        MirInstrModel::Call {
            func,
            args,
            kwargs,
            arg_places,
            kwarg_places,
            capture_accesses,
            param_arg_regs,
            ..
        } => call_issues(
            c,
            prefix,
            function,
            declarations,
            func.0,
            args,
            kwargs,
            arg_places,
            kwarg_places,
            capture_accesses,
            param_arg_regs,
        ),
        MirInstrModel::MethodCall {
            dest,
            method,
            resolved,
            reference_result,
            result_adapter,
            args,
            kwargs,
            arg_places,
            kwarg_places,
            capture_accesses,
            param_arg_regs,
            param_decls,
            ..
        } => match resolved {
            Some(callee) => method_call_issues(
                c,
                prefix,
                function,
                declarations,
                reg_found(function, dest),
                method,
                callee,
                reference_result,
                result_adapter,
                args,
                kwargs,
                arg_places,
                kwarg_places,
                capture_accesses,
                param_arg_regs,
                param_decls,
            ),
            None => Seq::empty(),
        },
        MirInstrModel::CallIndirect {
            dest,
            callee,
            resolved,
            raises,
            args,
            kwargs,
            arg_places,
            kwarg_places,
            capture_accesses,
            param_arg_regs,
            param_decls,
            instantiated_contract,
            instantiated_args,
            ..
        } => call_indirect_issues(
            c,
            prefix,
            function,
            declarations,
            dest,
            reg_found(function, callee),
            resolved,
            raises,
            args,
            kwargs,
            arg_places,
            kwarg_places,
            capture_accesses,
            param_arg_regs,
            param_decls,
            instantiated_contract,
            instantiated_args,
        ),
        _ => Seq::empty(),
    }
}

fn verify_dispatch<C: Checker>(
    c: &C,
    prefix: &str,
    function: &MirFunction,
    declarations: &MirDeclarations,
    instruction: &MirInstr,
    errors: &mut Vec<String>,
)
    ensures
        strings_view(*final(errors)) == strings_view(*old(errors)) + dispatch_issues(
            *c,
            prefix@,
            function@,
            declarations@,
            instruction@,
        ),
{
    proof {
        reveal(dispatch_issues);
    }
    let ghost start = strings_view(*errors);
    match instruction {
        MirInstr::GetIter { source, dest, mode, prepare } => verify_get_iter(
            prefix,
            function,
            declarations,
            *source,
            *dest,
            *mode,
            prepare,
            errors,
        ),
        MirInstr::Next { dest, iter, call } => verify_next(
            c,
            prefix,
            function,
            declarations,
            reg_type(function, *dest),
            *iter,
            call,
            errors,
        ),
        MirInstr::TryNext { dest, yielded, iter, call, exhaustion } => verify_try_next(
            c,
            prefix,
            function,
            declarations,
            reg_type(function, *dest),
            reg_type(function, *yielded),
            *iter,
            call,
            exhaustion,
            errors,
        ),
        MirInstr::Index { dest, base, index, base_place, index_place, call, intrinsic } => verify_index(
            c,
            prefix,
            function,
            declarations,
            *dest,
            *base,
            *index,
            base_place,
            index_place,
            call,
            intrinsic,
            errors,
        ),
        MirInstr::Slice { dest, object, kind, object_place, arg_places, call, intrinsic, .. } => verify_slice(
            c,
            prefix,
            function,
            declarations,
            *dest,
            *object,
            *kind,
            object_place,
            arg_places,
            call,
            intrinsic,
            errors,
        ),
        MirInstr::MultiIndex {
            dest,
            object,
            args,
            object_place,
            arg_places,
            kwargs,
            kwarg_places,
            call,
        } => verify_multi_index(
            c,
            prefix,
            function,
            declarations,
            *dest,
            *object,
            args,
            object_place,
            arg_places,
            kwargs,
            kwarg_places,
            call,
            errors,
        ),
        MirInstr::MultiSet {
            receiver,
            receiver_place,
            args,
            arg_places,
            value,
            value_place,
            value_keyword,
            call,
        } => verify_multi_set(
            c,
            prefix,
            function,
            declarations,
            *receiver,
            receiver_place,
            args,
            arg_places,
            *value,
            value_place,
            *value_keyword,
            call,
            errors,
        ),
        MirInstr::Call {
            func,
            args,
            kwargs,
            arg_places,
            kwarg_places,
            capture_accesses,
            param_arg_regs,
            ..
        } => verify_call(
            c,
            prefix,
            function,
            declarations,
            &func.0,
            args,
            kwargs,
            arg_places,
            kwarg_places,
            capture_accesses,
            param_arg_regs,
            errors,
        ),
        MirInstr::MethodCall {
            dest,
            method,
            resolved,
            reference_result,
            result_adapter,
            args,
            kwargs,
            arg_places,
            kwarg_places,
            capture_accesses,
            param_arg_regs,
            param_decls,
            ..
        } => match resolved {
            Some(callee) => verify_method_call(
                c,
                prefix,
                function,
                declarations,
                reg_type(function, *dest),
                method,
                callee,
                reference_result,
                result_adapter,
                args,
                kwargs,
                arg_places,
                kwarg_places,
                capture_accesses,
                param_arg_regs,
                param_decls,
                errors,
            ),
            None => {
                assert(strings_view(*errors) =~= start + Seq::<Seq<char>>::empty());
            },
        },
        MirInstr::CallIndirect {
            dest,
            callee,
            resolved,
            raises,
            args,
            kwargs,
            arg_places,
            kwarg_places,
            capture_accesses,
            param_arg_regs,
            param_decls,
            instantiated_contract,
            instantiated_args,
            ..
        } => verify_call_indirect(
            c,
            prefix,
            function,
            declarations,
            *dest,
            reg_type(function, *callee),
            resolved,
            raises,
            args,
            kwargs,
            arg_places,
            kwarg_places,
            capture_accesses,
            param_arg_regs,
            param_decls,
            instantiated_contract,
            instantiated_args,
            errors,
        ),
        _ => {
            assert(strings_view(*errors) =~= start + Seq::<Seq<char>>::empty());
        },
    }
}

/// Whether a selected subscript call can raise.
pub open spec fn subscript_raises(call: Option<MirSubscriptCallModel>) -> bool {
    call is Some && call->Some_0.raises is Some
}

fn can_subscript_raise(call: &Option<MirSubscriptCall>) -> (r: bool)
    ensures
        r == subscript_raises(opt_subscript_call_view(*call)),
{
    match call {
        Some(call) => call.raises.is_some(),
        None => false,
    }
}

/// Whether an instruction calls something that can raise.
pub open spec fn raising_call(instruction: MirInstrModel) -> bool {
    match instruction {
        MirInstrModel::Call { raises, .. } => raises is Some,
        MirInstrModel::CallIndirect { raises, .. } => raises is Some,
        MirInstrModel::MethodCall { raises, .. } => raises is Some,
        MirInstrModel::Index { call, .. } => subscript_raises(call),
        MirInstrModel::Slice { call, .. } => subscript_raises(call),
        MirInstrModel::MultiIndex { call, .. } => subscript_raises(call),
        MirInstrModel::MultiSet { call, .. } => call.raises is Some,
        _ => false,
    }
}

fn is_raising_call(instruction: &MirInstr) -> (r: bool)
    ensures
        r == raising_call(instruction@),
{
    match instruction {
        MirInstr::Call { raises, .. } => raises.is_some(),
        MirInstr::CallIndirect { raises, .. } => raises.is_some(),
        MirInstr::MethodCall { raises, .. } => raises.is_some(),
        MirInstr::Index { call, .. } => can_subscript_raise(call),
        MirInstr::Slice { call, .. } => can_subscript_raise(call),
        MirInstr::MultiIndex { call, .. } => can_subscript_raise(call),
        MirInstr::MultiSet { call, .. } => call.raises.is_some(),
        _ => false,
    }
}

/// The issues of raising where nothing catches: neither the function nor a handler.
#[verifier::opaque]
pub open spec fn raise_issues(
    prefix: Seq<char>,
    function: MirFunctionModel,
    instruction: MirInstrModel,
    context: RegionContext,
) -> Seq<Seq<char>> {
    let unprotected = !function.raises && !context.protected;
    rule(
        instruction is Raise && unprotected,
        prefix + ": unprotected raise in nonraising function"@,
    ) + rule(
        raising_call(instruction) && unprotected,
        prefix + ": unprotected raising call in nonraising function"@,
    )
}

fn verify_raise(
    prefix: &str,
    function: &MirFunction,
    instruction: &MirInstr,
    context: &RegionContext,
    errors: &mut Vec<String>,
)
    ensures
        strings_view(*final(errors)) == strings_view(*old(errors)) + raise_issues(
            prefix@,
            function@,
            instruction@,
            *context,
        ),
{
    proof {
        reveal(raise_issues);
    }
    let ghost start = strings_view(*errors);
    if !function.raises && !context.protected {
        if let MirInstr::Raise { .. } = instruction {
            report(errors, cat2(prefix, ": unprotected raise in nonraising function"));
        }
        if is_raising_call(instruction) {
            report(errors, cat2(prefix, ": unprotected raising call in nonraising function"));
        }
    }
    assert(strings_view(*errors) =~= start + raise_issues(prefix@, function@, instruction@, *context));
}

/// The issues of one instruction, apart from the regions it holds. A loan names an
/// origin path and need not be indexed storage; every other place is.
#[verifier::opaque]
pub open spec fn own_issues<C: Checker>(
    c: C,
    name: Seq<char>,
    function: MirFunctionModel,
    declarations: MirDeclarationsModel,
    block: nat,
    instruction: MirInstrModel,
    context: RegionContext,
) -> Seq<Seq<char>> {
    let prefix = block_prefix(name, block);
    places_issues(
        c,
        name,
        block,
        function,
        declarations,
        places_of(instruction),
        !(instruction is EstablishLoans),
    ) + register_issues(prefix, function, result_regs(instruction) + operand_regs(instruction)) + value_issues(
        c,
        prefix,
        function,
        declarations,
        instruction,
    ) + dispatch_issues(c, prefix, function, declarations, instruction) + raise_issues(
        prefix,
        function,
        instruction,
        context,
    )
}

fn verify_own<C: Checker>(
    c: &C,
    name: &str,
    function: &MirFunction,
    declarations: &MirDeclarations,
    block_index: usize,
    instruction: &MirInstr,
    context: &RegionContext,
    errors: &mut Vec<String>,
)
    ensures
        strings_view(*final(errors)) == strings_view(*old(errors)) + own_issues(
            *c,
            name@,
            function@,
            declarations@,
            block_index as nat,
            instruction@,
            *context,
        ),
{
    proof {
        reveal(own_issues);
    }
    let ghost start = strings_view(*errors);
    let prefix_text: String = prefix_of(name, block_index);
    let prefix: &str = &prefix_text;
    let executable: bool = match instruction {
        MirInstr::EstablishLoans { .. } => false,
        _ => true,
    };
    let places: Vec<&MirPlace> = instruction_places(instruction);
    verify_places(c, name, block_index, function, declarations, &places, executable, errors);
    let mut registers: Vec<Reg> = Vec::new();
    instruction_result_regs(instruction, &mut registers);
    instruction_operand_regs(instruction, &mut registers);
    assert(registers@ =~= result_regs(instruction@) + operand_regs(instruction@));
    verify_registers(prefix, function, &registers, errors);
    verify_value(c, prefix, function, declarations, instruction, errors);
    verify_dispatch(c, prefix, function, declarations, instruction, errors);
    verify_raise(prefix, function, instruction, context, errors);
    assert(strings_view(*errors) =~= start + own_issues(
        *c,
        name@,
        function@,
        declarations@,
        block_index as nat,
        instruction@,
        *context,
    ));
}

/// The region of blocks inside a `try`.
pub open spec fn try_context(len: nat, context: RegionContext, handled: bool) -> RegionContext {
    RegionContext {
        region_len: len as usize,
        function_len: context.function_len,
        in_try_region: true,
        protected: handled || context.protected,
    }
}

/// The issues of one instruction and of the regions it holds.
pub open spec fn instruction_issues<C: Checker>(
    c: C,
    name: Seq<char>,
    function: MirFunctionModel,
    declarations: MirDeclarationsModel,
    block: nat,
    instruction: MirInstrModel,
    context: RegionContext,
) -> Seq<Seq<char>>
    decreases instruction, 1int,
{
    own_issues(c, name, function, declarations, block, instruction, context) + held_issues(
        c,
        name,
        function,
        declarations,
        instruction,
        context,
    )
}

/// The issues of the regions that an instruction holds. Only the body of a `try` is
/// under the protection of its handler.
pub open spec fn held_issues<C: Checker>(
    c: C,
    name: Seq<char>,
    function: MirFunctionModel,
    declarations: MirDeclarationsModel,
    instruction: MirInstrModel,
    context: RegionContext,
) -> Seq<Seq<char>>
    decreases instruction, 0int,
{
    match instruction {
        MirInstrModel::Try { body, handler, orelse, finalbody } => blocks_issues(
            c,
            name,
            function,
            declarations,
            body,
            try_context(body.len(), context, handler is Some),
        ) + handler_issues(c, name, function, declarations, handler, context) + region_issues(
            c,
            name,
            function,
            declarations,
            orelse,
            context,
        ) + region_issues(c, name, function, declarations, finalbody, context),
        _ => Seq::empty(),
    }
}

/// The issues of the handler of a `try`.
pub open spec fn handler_issues<C: Checker>(
    c: C,
    name: Seq<char>,
    function: MirFunctionModel,
    declarations: MirDeclarationsModel,
    handler: Option<(Option<u32>, Seq<MirBlockModel>)>,
    context: RegionContext,
) -> Seq<Seq<char>>
    decreases handler, 0int,
{
    match handler {
        Some(handler) => blocks_issues(
            c,
            name,
            function,
            declarations,
            handler.1,
            try_context(handler.1.len(), context, false),
        ),
        None => Seq::empty(),
    }
}

/// The issues of an optional region of a `try`.
pub open spec fn region_issues<C: Checker>(
    c: C,
    name: Seq<char>,
    function: MirFunctionModel,
    declarations: MirDeclarationsModel,
    region: Option<Seq<MirBlockModel>>,
    context: RegionContext,
) -> Seq<Seq<char>>
    decreases region, 0int,
{
    match region {
        Some(blocks) => blocks_issues(
            c,
            name,
            function,
            declarations,
            blocks,
            try_context(blocks.len(), context, false),
        ),
        None => Seq::empty(),
    }
}

/// The issues of the instructions of a block, in order.
pub open spec fn instructions_issues<C: Checker>(
    c: C,
    name: Seq<char>,
    function: MirFunctionModel,
    declarations: MirDeclarationsModel,
    block: nat,
    instructions: Seq<MirInstrModel>,
    context: RegionContext,
) -> Seq<Seq<char>>
    decreases instructions, 0int,
{
    if instructions.len() == 0 {
        Seq::empty()
    } else {
        instructions_issues(c, name, function, declarations, block, instructions.drop_last(), context) + instruction_issues(
            c,
            name,
            function,
            declarations,
            block,
            instructions.last(),
            context,
        )
    }
}

/// The issues of blocks in order: of each its instructions, and its terminator.
pub open spec fn blocks_issues<C: Checker>(
    c: C,
    name: Seq<char>,
    function: MirFunctionModel,
    declarations: MirDeclarationsModel,
    blocks: Seq<MirBlockModel>,
    context: RegionContext,
) -> Seq<Seq<char>>
    decreases blocks, 0int,
{
    if blocks.len() == 0 {
        Seq::empty()
    } else {
        let block = (blocks.len() - 1) as nat;
        blocks_issues(c, name, function, declarations, blocks.drop_last(), context) + instructions_issues(
            c,
            name,
            function,
            declarations,
            block,
            blocks.last().instrs,
            context,
        ) + terminator_issues(c, block_prefix(name, block), function, blocks.last().term, context)
    }
}

/// Verifies one instruction: its places, its registers, what it does, and the
/// regions it holds.
pub fn verify_instruction<C: Checker>(
    c: &C,
    name: &str,
    function: &MirFunction,
    declarations: &MirDeclarations,
    block_index: usize,
    instruction: &MirInstr,
    context: &RegionContext,
    errors: &mut Vec<String>,
)
    ensures
        strings_view(*final(errors)) == strings_view(*old(errors)) + instruction_issues(
            *c,
            name@,
            function@,
            declarations@,
            block_index as nat,
            instruction@,
            *context,
        ),
    decreases instruction, 1int,
{
    let ghost start = strings_view(*errors);
    verify_own(c, name, function, declarations, block_index, instruction, context, errors);
    verify_held(c, name, function, declarations, instruction, context, errors);
    assert(strings_view(*errors) =~= start + instruction_issues(
        *c,
        name@,
        function@,
        declarations@,
        block_index as nat,
        instruction@,
        *context,
    ));
}

fn verify_held<C: Checker>(
    c: &C,
    name: &str,
    function: &MirFunction,
    declarations: &MirDeclarations,
    instruction: &MirInstr,
    context: &RegionContext,
    errors: &mut Vec<String>,
)
    ensures
        strings_view(*final(errors)) == strings_view(*old(errors)) + held_issues(
            *c,
            name@,
            function@,
            declarations@,
            instruction@,
            *context,
        ),
    decreases instruction, 0int,
{
    let ghost start = strings_view(*errors);
    if let MirInstr::Try { body, handler, orelse, finalbody } = instruction {
        let body_context: RegionContext = RegionContext {
            region_len: body.len(),
            function_len: context.function_len,
            in_try_region: true,
            protected: handler.is_some() || context.protected,
        };
        assert(blocks_view(*body).len() == body@.len());
        assert(body_context == try_context(blocks_view(*body).len(), *context, *handler is Some));
        verify_blocks(c, name, function, declarations, body, &body_context, errors);
        verify_handler(c, name, function, declarations, handler, context, errors);
        verify_region(c, name, function, declarations, orelse, context, errors);
        verify_region(c, name, function, declarations, finalbody, context, errors);
        proof {
            lemma_add_four(
                start,
                blocks_issues(*c, name@, function@, declarations@, blocks_view(*body), body_context),
                handler_issues(
                    *c,
                    name@,
                    function@,
                    declarations@,
                    opt_opt_u32_blocks_view(*handler),
                    *context,
                ),
                region_issues(*c, name@, function@, declarations@, opt_blocks_view(*orelse), *context),
                region_issues(*c, name@, function@, declarations@, opt_blocks_view(*finalbody), *context),
            );
            lemma_handled(*handler);
        }
    } else {
        assert(start + Seq::<Seq<char>>::empty() =~= start);
    }
}

proof fn lemma_handled(handler: Option<(Option<u32>, Vec<MirBlock>)>)
    ensures
        opt_opt_u32_blocks_view(handler) is Some <==> handler is Some,
{
}

proof fn lemma_add_four(
    s: Seq<Seq<char>>,
    a: Seq<Seq<char>>,
    b: Seq<Seq<char>>,
    c: Seq<Seq<char>>,
    d: Seq<Seq<char>>,
)
    ensures
        s + a + b + c + d == s + (a + b + c + d),
{
    assert(s + a + b + c + d =~= s + (a + b + c + d));
}

fn verify_handler<C: Checker>(
    c: &C,
    name: &str,
    function: &MirFunction,
    declarations: &MirDeclarations,
    handler: &Option<(Option<u32>, Vec<MirBlock>)>,
    context: &RegionContext,
    errors: &mut Vec<String>,
)
    ensures
        strings_view(*final(errors)) == strings_view(*old(errors)) + handler_issues(
            *c,
            name@,
            function@,
            declarations@,
            opt_opt_u32_blocks_view(*handler),
            *context,
        ),
    decreases handler, 0int,
{
    let ghost start = strings_view(*errors);
    if let Some(handler) = handler {
        let region_context: RegionContext = RegionContext {
            region_len: handler.1.len(),
            function_len: context.function_len,
            in_try_region: true,
            protected: context.protected,
        };
        assert(blocks_view(handler.1).len() == handler.1@.len());
        assert(region_context == try_context(blocks_view(handler.1).len(), *context, false));
        verify_blocks(c, name, function, declarations, &handler.1, &region_context, errors);
    }
    assert(strings_view(*errors) =~= start + handler_issues(
        *c,
        name@,
        function@,
        declarations@,
        opt_opt_u32_blocks_view(*handler),
        *context,
    ));
}

fn verify_region<C: Checker>(
    c: &C,
    name: &str,
    function: &MirFunction,
    declarations: &MirDeclarations,
    region: &Option<Vec<MirBlock>>,
    context: &RegionContext,
    errors: &mut Vec<String>,
)
    ensures
        strings_view(*final(errors)) == strings_view(*old(errors)) + region_issues(
            *c,
            name@,
            function@,
            declarations@,
            opt_blocks_view(*region),
            *context,
        ),
    decreases region, 0int,
{
    let ghost start = strings_view(*errors);
    if let Some(blocks) = region {
        let region_context: RegionContext = RegionContext {
            region_len: blocks.len(),
            function_len: context.function_len,
            in_try_region: true,
            protected: context.protected,
        };
        assert(blocks_view(*blocks).len() == blocks@.len());
        assert(region_context == try_context(blocks_view(*blocks).len(), *context, false));
        verify_blocks(c, name, function, declarations, blocks, &region_context, errors);
    }
    assert(strings_view(*errors) =~= start + region_issues(
        *c,
        name@,
        function@,
        declarations@,
        opt_blocks_view(*region),
        *context,
    ));
}

fn verify_instructions<C: Checker>(
    c: &C,
    name: &str,
    function: &MirFunction,
    declarations: &MirDeclarations,
    block_index: usize,
    instructions: &Vec<MirInstr>,
    context: &RegionContext,
    errors: &mut Vec<String>,
)
    ensures
        strings_view(*final(errors)) == strings_view(*old(errors)) + instructions_issues(
            *c,
            name@,
            function@,
            declarations@,
            block_index as nat,
            instrs_view(*instructions),
            *context,
        ),
    decreases instructions, 0int,
{
    let ghost start = strings_view(*errors);
    let ghost model = instrs_view(*instructions);
    assert(start =~= start + instructions_issues(
        *c,
        name@,
        function@,
        declarations@,
        block_index as nat,
        model.take(0),
        *context,
    ));
    for i in 0..instructions.len()
        invariant
            model == instrs_view(*instructions),
            strings_view(*errors) == start + instructions_issues(
                *c,
                name@,
                function@,
                declarations@,
                block_index as nat,
                model.take(i as int),
                *context,
            ),
    {
        assert(model.take(i + 1).drop_last() =~= model.take(i as int));
        assert(model[i as int] == instructions@[i as int]@);
        verify_instruction(c, name, function, declarations, block_index, &instructions[i], context, errors);
        assert(strings_view(*errors) =~= start + instructions_issues(
            *c,
            name@,
            function@,
            declarations@,
            block_index as nat,
            model.take(i + 1),
            *context,
        ));
    }
    assert(model.take(model.len() as int) =~= model);
}

/// Verifies the blocks of a region.
pub fn verify_blocks<C: Checker>(
    c: &C,
    name: &str,
    function: &MirFunction,
    declarations: &MirDeclarations,
    blocks: &Vec<MirBlock>,
    context: &RegionContext,
    errors: &mut Vec<String>,
)
    ensures
        strings_view(*final(errors)) == strings_view(*old(errors)) + blocks_issues(
            *c,
            name@,
            function@,
            declarations@,
            blocks_view(*blocks),
            *context,
        ),
    decreases blocks, 0int,
{
    let ghost start = strings_view(*errors);
    let ghost model = blocks_view(*blocks);
    assert(start =~= start + blocks_issues(*c, name@, function@, declarations@, model.take(0), *context));
    for i in 0..blocks.len()
        invariant
            model == blocks_view(*blocks),
            strings_view(*errors) == start + blocks_issues(
                *c,
                name@,
                function@,
                declarations@,
                model.take(i as int),
                *context,
            ),
    {
        assert(model.take(i + 1).drop_last() =~= model.take(i as int));
        assert(model[i as int] == blocks@[i as int]@);
        verify_instructions(c, name, function, declarations, i, &blocks[i].instrs, context, errors);
        verify_terminator(c, name, function, i, &blocks[i].term, context, errors);
        assert(strings_view(*errors) =~= start + blocks_issues(
            *c,
            name@,
            function@,
            declarations@,
            model.take(i + 1),
            *context,
        ));
    }
    assert(model.take(model.len() as int) =~= model);
}

} // verus!
